pub mod pid;
pub mod address;
