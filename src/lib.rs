pub mod envelope;
pub mod error;
pub mod handlers;
pub mod header;
pub mod ping;
