pub mod bytes;
pub mod client;
pub mod client_io;
pub mod error;
pub mod laws;
pub mod outgoing;
pub mod response;
pub mod socket_name;
pub mod steps;
pub mod stream;
pub mod timeout;
pub mod wire;
