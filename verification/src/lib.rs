pub mod client;
pub mod codec;
pub mod guard;
pub mod laws;
pub mod protocol;
pub mod server;
