use vstd::prelude::*;
use vstd::string::StringExecFns;

verus! {

/// The errors of the client runtime. None is fatal to the session: transport
/// loss reconnects, cryptographic and decode failures drop or report the one
/// message.
#[derive(Debug)]
pub enum AppError {
    WindowNotFound,
    DocumentNotFound,
    WebSocketError(String),
    SerializationError(String),
    DomOperationError(String),
    InvalidState(String),
    CryptoError(String),
}

impl AppError {
    /// The diagnostic text of this error.
    pub fn message(&self) -> (r: String)
        ensures
            r@ == match *self {
                AppError::WindowNotFound => "Window not found"@,
                AppError::DocumentNotFound => "Document not found"@,
                AppError::WebSocketError(s) => "WebSocket error: "@ + s@,
                AppError::SerializationError(s) => "Serialization error: "@ + s@,
                AppError::DomOperationError(s) => "DOM operation failed: "@ + s@,
                AppError::InvalidState(s) => "Invalid state: "@ + s@,
                AppError::CryptoError(s) => "Cryptography error: "@ + s@,
            },
    {
        match self {
            AppError::WindowNotFound => String::from_str("Window not found"),
            AppError::DocumentNotFound => String::from_str("Document not found"),
            AppError::WebSocketError(s) => String::from_str("WebSocket error: ").concat(s.as_str()),
            AppError::SerializationError(s) => String::from_str("Serialization error: ").concat(
                s.as_str(),
            ),
            AppError::DomOperationError(s) => String::from_str("DOM operation failed: ").concat(
                s.as_str(),
            ),
            AppError::InvalidState(s) => String::from_str("Invalid state: ").concat(s.as_str()),
            AppError::CryptoError(s) => String::from_str("Cryptography error: ").concat(s.as_str()),
        }
    }
}

} // verus!
