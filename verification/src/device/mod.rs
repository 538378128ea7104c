pub mod connection;
pub mod state;
pub mod status;
