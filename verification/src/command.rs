//! Formatting of the lines that a client sends.

use crate::RoomId;
use vstd::prelude::*;
use vstd::std_specs::cmp::PartialEqSpecImpl;
use vstd::string::StringExecFns;

verus! {

/// One line, formatted and ready to be sent as a text frame.
///
/// The text that a line is built from is copied as it is: a line break or a
/// `|` in it is not escaped, so a message with a line break reaches the
/// server as several lines.
#[derive(Clone, Debug)]
pub struct SendMessage(String);

impl View for SendMessage {
    type V = Seq<char>;

    closed spec fn view(&self) -> Seq<char> {
        self.0@
    }
}

/// The line of a command that belongs to no room: `|/` and the command.
pub open spec fn global_line(command: Seq<char>) -> Seq<char> {
    seq!['|', '/'] + command
}

/// The line of something sent to a room: the room, `|`, a marker and the
/// text. The marker is a space for a chat message, `/` for a command and `!`
/// for a broadcast command.
pub open spec fn room_line(room: Seq<char>, marker: char, text: Seq<char>) -> Seq<char> {
    room + seq!['|', marker] + text
}

impl SendMessage {
    /// Creates a global command.
    pub fn global_command(command: &str) -> (r: SendMessage)
        ensures
            r@ == global_line(command@),
    {
        proof {
            reveal_strlit("|/");
            assert("|/"@ =~= seq!['|', '/']);
        }
        let mut line = String::from_str("|/");
        line.append(command);
        SendMessage(line)
    }

    /// Creates a chat room message.
    pub fn chat_message(room_id: RoomId<'_>, message: &str) -> (r: SendMessage)
        ensures
            r@ == room_line(room_id@, ' ', message@),
    {
        proof {
            reveal_strlit("| ");
            assert("| "@ =~= seq!['|', ' ']);
        }
        Self::prefixed(room_id, "| ", message)
    }

    /// Creates a command that executes in a chat room.
    pub fn chat_command(room_id: RoomId<'_>, command: &str) -> (r: SendMessage)
        ensures
            r@ == room_line(room_id@, '/', command@),
    {
        proof {
            reveal_strlit("|/");
            assert("|/"@ =~= seq!['|', '/']);
        }
        Self::prefixed(room_id, "|/", command)
    }

    /// Creates a command that executes in a chat room and shows its result to
    /// the whole room.
    pub fn broadcast_command(room_id: RoomId<'_>, command: &str) -> (r: SendMessage)
        ensures
            r@ == room_line(room_id@, '!', command@),
    {
        proof {
            reveal_strlit("|!");
            assert("|!"@ =~= seq!['|', '!']);
        }
        Self::prefixed(room_id, "|!", command)
    }

    /// Joins the room, the separator with its marker, and the text.
    fn prefixed(room_id: RoomId<'_>, prefix: &str, message: &str) -> (r: SendMessage)
        ensures
            r@ == room_id@ + prefix@ + message@,
    {
        let mut line = String::from_str(room_id.0);
        line.append(prefix);
        line.append(message);
        SendMessage(line)
    }

    /// The formatted line.
    pub fn as_str(&self) -> (r: &str)
        ensures
            r@ == self@,
    {
        self.0.as_str()
    }

    /// The formatted line, as the text of a frame.
    pub fn into_string(self) -> (r: String)
        ensures
            r@ == self@,
    {
        self.0
    }
}

impl PartialEq for SendMessage {
    fn eq(&self, other: &SendMessage) -> (r: bool) {
        self.0 == other.0
    }
}

impl Eq for SendMessage {

}

impl PartialEqSpecImpl for SendMessage {
    open spec fn obeys_eq_spec() -> bool {
        true
    }

    open spec fn eq_spec(&self, other: &SendMessage) -> bool {
        self@ == other@
    }
}

} // verus!
