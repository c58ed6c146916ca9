pub mod client;
pub mod server;

pub use client::ClientMessage;
pub use server::ServerMessage;
