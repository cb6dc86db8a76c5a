pub mod encryption;
pub mod kerberos;
pub mod quazal_rc4;
pub mod rc4;
