pub mod crypto;
pub mod handler;
pub mod messages;
pub mod messaging;
pub mod transport;

pub use crypto::Crypto;
pub use handler::{HandlerOutcome, MessageHandler};
pub use messages::{ClientMessage, ServerMessage};
pub use messaging::Messaging;
pub use transport::{ClientConnection, ConnectionEvent, ConnectionState, TransportAction};
