//! The failures that the client reports.

use crate::transport::Frame;
use vstd::prelude::*;

verus! {

/// The failure that the WebSocket layer reports. Opaque here; it is only
/// carried to the caller.
#[verifier::external_type_specification]
#[verifier::external_body]
pub struct ExWebSocketError(tokio_tungstenite::tungstenite::Error);

/// The failure that the HTTP client reports. Opaque here; it is only carried
/// to the caller.
#[verifier::external_type_specification]
#[verifier::external_body]
pub struct ExHttpError(reqwest::Error);

/// The failure that `url` reports for text that is no URL. Opaque here; it is
/// only carried to the caller.
#[verifier::external_type_specification]
#[verifier::external_body]
pub struct ExUrlError(url::ParseError);

/// A failure of the client, with its cause. Nothing is retried: every
/// failure reaches the caller as it happened.
#[derive(Debug)]
pub enum ClientError {
    /// The connection failed, while it was set up or while it was used.
    WebSocket(tokio_tungstenite::tungstenite::Error),
    /// A request to the server directory or to the login service failed.
    Reqwest(reqwest::Error),
    /// The server directory named an address that is no URL.
    Url(url::ParseError),
    /// An answer of the server directory or of the login service was not the
    /// JSON document that was expected.
    Json(serde_json::Error),
    /// A frame arrived that is neither text nor a normal closure.
    UnrecognizedMessage(Frame),
}

impl ClientError {
    /// Wraps a failure of the WebSocket layer, where there is one.
    pub fn from_ws<T>(r: Result<T, tokio_tungstenite::tungstenite::Error>) -> (out: Result<
        T,
        ClientError,
    >)
        ensures
            out == match r {
                Ok(value) => Ok::<T, ClientError>(value),
                Err(cause) => Err(ClientError::WebSocket(cause)),
            },
    {
        match r {
            Ok(value) => Ok(value),
            Err(cause) => Err(ClientError::WebSocket(cause)),
        }
    }
}

} // verus!
