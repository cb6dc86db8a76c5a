pub mod kerberos;
pub mod stub;
