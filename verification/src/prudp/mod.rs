pub mod fragmentation;
pub mod packet;
pub mod packet_dispatch_queue;
pub mod sliding;
pub mod crypto;
pub mod connection;
