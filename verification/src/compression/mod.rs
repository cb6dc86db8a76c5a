pub mod algorithm;
pub mod zlib;
pub mod lzo;
