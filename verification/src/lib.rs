//! Client-side engine of the Pokémon Showdown protocol.
//!
//! The protocol is made of lines of text that travel as WebSocket frames.
//! This library holds what the protocol itself asks for, proved against a
//! model in plain sequences of characters:
//!
//! - [`message`] reads one received frame into a room and a typed event;
//! - [`SendMessage`] writes the lines that a client sends;
//! - [`transport`] says what each frame, failure or end of the connection
//!   means for whoever reads it;
//! - [`auth`] is the login handshake, from the server's challenge to the
//!   command that completes the login;
//! - [`directory`] finds the address of a server by its name.
//!
//! The library opens no socket and makes no request. Where a step needs one,
//! it says what to ask for and takes the answer as a value.
//!
//! JSON is decoded by `serde_json`, addresses are parsed by `url` and moments
//! are made by `time`. The few calls into them are believed, not proved; each
//! is a small private function with its claim written above it.

pub mod auth;
pub mod command;
pub mod directory;
pub mod error;
pub mod json;
pub mod message;
pub mod number;
pub mod rooms;
pub mod text;
pub mod timestamp;
pub mod transport;

pub use command::SendMessage;
pub use error::ClientError;
pub use time;
pub use url;
use vstd::prelude::*;

verus! {

/// Identifier of the room that a frame is scoped to.
#[derive(Copy, Clone, Debug)]
pub struct RoomId<'a>(pub &'a str);

impl View for RoomId<'_> {
    type V = Seq<char>;

    open spec fn view(&self) -> Seq<char> {
        self.0@
    }
}

/// Name of the room that frames without an envelope belong to.
pub open spec fn lobby() -> Seq<char> {
    "lobby"@
}

impl RoomId<'_> {
    /// The room that frames without an envelope belong to.
    pub fn lobby() -> (r: RoomId<'static>)
        ensures
            r@ == lobby(),
    {
        RoomId("lobby")
    }
}

} // verus!
