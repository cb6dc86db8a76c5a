pub mod error;
pub mod auth;
pub mod types;
pub mod kerberos;
pub mod byte_stream;
pub mod byte_stream_in;
pub mod byte_stream_out;
pub mod byte_stream_settings;
pub mod rmc_message;
pub mod hpp;
pub mod hpp_packet;
pub mod prudp;
pub mod time;
pub mod sum;
pub mod prudp_packet;
pub mod constants;
pub mod prudp_v1_settings;
pub mod prudp_packet_v1;
pub mod sliding_window;
pub mod key_list;
pub mod counter;
pub mod rtt;
pub mod crypto;
pub mod algorithm;
pub mod dummy;
pub mod connection;
pub mod result_codes;
pub mod account;
pub mod services;
pub mod rmc;
pub mod compression;
pub mod prudp_connection;
pub mod rv;
pub mod text;

pub use error::{Error, Result};
