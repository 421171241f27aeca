pub mod connection;
pub mod protocol;
