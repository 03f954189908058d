//! Classification of one received frame into a room and a typed event.

use crate::rooms::{rooms_list_of_text, RoomsListView};
pub use crate::rooms::{Room, RoomsList};
use crate::text::{
    after, before, lemma_first_index, split_once, str_eq, strip_prefix, strip_suffix,
};
use crate::{lobby, RoomId};
use vstd::prelude::*;

verus! {

/// One received frame, owning its text. Everything that classification hands
/// out borrows from it.
#[derive(Debug)]
pub struct Message {
    pub raw: String,
}

impl View for Message {
    type V = Seq<char>;

    open spec fn view(&self) -> Seq<char> {
        self.raw@
    }
}

/// Whether a frame starts with the envelope marker `>`.
pub open spec fn has_envelope(frame: Seq<char>) -> bool {
    frame.len() > 0 && frame[0] == '>'
}

/// Room that a frame is scoped to: the text between the envelope marker and
/// the first line break, or the lobby for a frame without an envelope.
pub open spec fn room_of(frame: Seq<char>) -> Seq<char> {
    if has_envelope(frame) {
        before(frame.drop_first(), '\n')
    } else {
        lobby()
    }
}

/// Body of a frame: what follows the envelope line, or the whole frame when
/// there is no envelope.
pub open spec fn body_of(frame: Seq<char>) -> Seq<char> {
    if has_envelope(frame) {
        after(frame.drop_first(), '\n')
    } else {
        frame
    }
}

/// Splits at the first `|`. Without one, the first half is all of `arg` and
/// the second is empty.
pub fn split2<'a>(arg: &'a str) -> (r: (&'a str, &'a str))
    ensures
        r.0@ == before(arg@, '|'),
        r.1@ == after(arg@, '|'),
{
    split_or_all(arg, '|')
}

/// Splits at the first `c`. Without one, the first half is all of `arg` and
/// the second is empty.
fn split_or_all<'a>(arg: &'a str, c: char) -> (r: (&'a str, &'a str))
    requires
        crate::text::is_ascii_char(c),
    ensures
        r.0@ == before(arg@, c),
        r.1@ == after(arg@, c),
{
    match split_once(arg, c) {
        Some(parts) => parts,
        None => {
            proof {
                lemma_first_index(arg@, c);
                reveal_strlit("");
                assert(before(arg@, c) =~= arg@);
                assert(""@ =~= Seq::<char>::empty());
            }
            (arg, "")
        },
    }
}

impl Message {
    /// Takes ownership of the text of one received frame.
    pub fn new(raw: String) -> (r: Message)
        ensures
            r@ == raw@,
    {
        Message { raw }
    }

    /// Room and body of the frame.
    fn parts(&self) -> (r: (&str, &str))
        ensures
            r.0@ == room_of(self@),
            r.1@ == body_of(self@),
    {
        let full_message: &str = self.raw.as_str();
        match strip_prefix(full_message, '>') {
            Some(without_prefix) => split_or_all(without_prefix, '\n'),
            None => (RoomId::lobby().0, full_message),
        }
    }

    /// Room that the frame is scoped to.
    pub fn room(&self) -> (r: RoomId<'_>)
        ensures
            r@ == room_of(self@),
    {
        RoomId(self.parts().0)
    }
}

/// `s` without one trailing line break, if it ends in one.
pub open spec fn strip_line_break(s: Seq<char>) -> Seq<char> {
    if s.len() > 0 && s.last() == '\n' {
        s.drop_last()
    } else {
        s
    }
}

/// Removes one trailing line break, if there is one.
fn trim_line_break<'a>(s: &'a str) -> (r: &'a str)
    ensures
        r@ == strip_line_break(s@),
{
    match strip_suffix(s, '\n') {
        Some(t) => t,
        None => s,
    }
}

/// A chat line in a room.
#[derive(Copy, Clone, Debug)]
pub struct Chat<'a> {
    timestamp: &'a str,
    user: &'a str,
    message: &'a str,
}

/// What a chat line says, as plain text.
pub struct ChatView {
    pub timestamp: Seq<char>,
    pub user: Seq<char>,
    pub message: Seq<char>,
}

impl View for Chat<'_> {
    type V = ChatView;

    closed spec fn view(&self) -> ChatView {
        ChatView {
            timestamp: self.timestamp@,
            user: self.user@,
            message: strip_line_break(self.message@),
        }
    }
}

/// The chat line that an argument tail `timestamp|user|message` stands for.
/// The message keeps further `|` and loses one trailing line break.
pub open spec fn chat_of(args: Seq<char>) -> ChatView {
    let rest = after(args, '|');
    ChatView {
        timestamp: before(args, '|'),
        user: before(rest, '|'),
        message: strip_line_break(after(rest, '|')),
    }
}

impl<'a> Chat<'a> {
    /// Reads the tail of a `c:` command.
    pub fn parse(arguments: &'a str) -> (r: Chat<'a>)
        ensures
            r@ == chat_of(arguments@),
    {
        let (timestamp, arguments) = split2(arguments);
        let (user, message) = split2(arguments);
        Chat { timestamp, user, message }
    }

    /// Name of the user who wrote the line, with its rank prefix.
    pub fn user(&self) -> (r: &'a str)
        ensures
            r@ == self@.user,
    {
        self.user
    }

    /// Text of the line.
    pub fn message(&self) -> (r: &'a str)
        ensures
            r@ == self@.message,
    {
        trim_line_break(self.message)
    }

    /// The timestamp field as the server sent it.
    pub fn raw_timestamp(&self) -> (r: &'a str)
        ensures
            r@ == self@.timestamp,
    {
        self.timestamp
    }
}

/// A private message between two users.
#[derive(Copy, Clone, Debug)]
pub struct Private<'a> {
    pub from: &'a str,
    pub to: &'a str,
    pub message: &'a str,
}

/// What a private message says, as plain text.
pub struct PrivateView {
    pub from: Seq<char>,
    pub to: Seq<char>,
    pub message: Seq<char>,
}

impl View for Private<'_> {
    type V = PrivateView;

    open spec fn view(&self) -> PrivateView {
        PrivateView { from: self.from@, to: self.to@, message: self.message@ }
    }
}

/// The private message that an argument tail `from|to|message` stands for.
/// The message keeps further `|` and loses one trailing line break.
pub open spec fn private_of(args: Seq<char>) -> PrivateView {
    let rest = after(args, '|');
    PrivateView {
        from: before(args, '|'),
        to: before(rest, '|'),
        message: strip_line_break(after(rest, '|')),
    }
}

impl<'a> Private<'a> {
    /// Reads the tail of a `pm` command.
    pub fn parse(arguments: &'a str) -> (r: Private<'a>)
        ensures
            r@ == private_of(arguments@),
    {
        let (from, arguments) = split2(arguments);
        let (to, message) = split2(arguments);
        Private { from, to, message: trim_line_break(message) }
    }
}

/// Why the server refused to open a room.
#[derive(Copy, Clone, Debug, PartialEq, Eq, Structural)]
pub enum NoInitKind {
    Nonexistent,
    JoinFailed,
    NameRequired,
}

/// The refusal kind that a word names, if any.
pub open spec fn no_init_kind_of(word: Seq<char>) -> Option<NoInitKind> {
    if word == "nonexistent"@ {
        Some(NoInitKind::Nonexistent)
    } else if word == "joinfailed"@ {
        Some(NoInitKind::JoinFailed)
    } else if word == "namerequired"@ {
        Some(NoInitKind::NameRequired)
    } else {
        None
    }
}

impl NoInitKind {
    /// Reads the first field of a `noinit` command.
    pub fn parse(argument: &str) -> (r: Option<NoInitKind>)
        ensures
            r == no_init_kind_of(argument@),
    {
        if str_eq(argument, "nonexistent") {
            Some(NoInitKind::Nonexistent)
        } else if str_eq(argument, "joinfailed") {
            Some(NoInitKind::JoinFailed)
        } else if str_eq(argument, "namerequired") {
            Some(NoInitKind::NameRequired)
        } else {
            None
        }
    }
}

/// The server refused to open a room.
#[derive(Copy, Clone, Debug)]
pub struct NoInit<'a> {
    pub kind: NoInitKind,
    pub reason: &'a str,
}

/// A refusal to open a room, as plain text.
pub struct NoInitView {
    pub kind: NoInitKind,
    pub reason: Seq<char>,
}

impl View for NoInit<'_> {
    type V = NoInitView;

    open spec fn view(&self) -> NoInitView {
        NoInitView { kind: self.kind, reason: self.reason@ }
    }
}

/// The refusal that an argument tail `kind|reason` stands for, if its kind is
/// a known one.
pub open spec fn no_init_of(args: Seq<char>) -> Option<NoInitView> {
    match no_init_kind_of(before(args, '|')) {
        Some(kind) => Some(NoInitView { kind, reason: after(args, '|') }),
        None => None,
    }
}

impl<'a> NoInit<'a> {
    /// Reads the tail of a `noinit` command.
    pub fn parse(arguments: &'a str) -> (r: Option<NoInit<'a>>)
        ensures
            r is Some <==> no_init_of(arguments@) is Some,
            r matches Some(n) ==> Some(n@) == no_init_of(arguments@),
    {
        let (kind, reason) = split2(arguments);
        match NoInitKind::parse(kind) {
            Some(kind) => Some(NoInit { kind, reason }),
            None => None,
        }
    }
}

/// The server's word on who this connection is logged in as.
#[derive(Copy, Clone, Debug)]
pub struct UpdateUser<'a> {
    pub username: &'a str,
    pub named: bool,
    pub avatar: &'a str,
}

/// A user update, as plain text.
pub struct UpdateUserView {
    pub username: Seq<char>,
    pub named: bool,
    pub avatar: Seq<char>,
}

impl View for UpdateUser<'_> {
    type V = UpdateUserView;

    open spec fn view(&self) -> UpdateUserView {
        UpdateUserView { username: self.username@, named: self.named, avatar: self.avatar@ }
    }
}

/// The flag that `0` or `1` stands for.
pub open spec fn named_flag_of(word: Seq<char>) -> Option<bool> {
    if word == "0"@ {
        Some(false)
    } else if word == "1"@ {
        Some(true)
    } else {
        None
    }
}

/// The user update that an argument tail `username|flag|avatar` stands for.
/// All three fields must be there and the flag must be `0` or `1`. The avatar
/// ends at the next `|` or line break.
pub open spec fn update_user_of(args: Seq<char>) -> Option<UpdateUserView> {
    let rest = after(args, '|');
    let flag = named_flag_of(before(rest, '|'));
    if args.contains('|') && rest.contains('|') && flag is Some {
        Some(
            UpdateUserView {
                username: before(args, '|'),
                named: flag->0,
                avatar: before(before(after(rest, '|'), '|'), '\n'),
            },
        )
    } else {
        None
    }
}

impl<'a> UpdateUser<'a> {
    /// Reads the tail of an `updateuser` command.
    pub fn parse(arguments: &'a str) -> (r: Option<UpdateUser<'a>>)
        ensures
            r is Some <==> update_user_of(arguments@) is Some,
            r matches Some(u) ==> Some(u@) == update_user_of(arguments@),
    {
        let (username, rest) = match split_once(arguments, '|') {
            Some(parts) => parts,
            None => { return None; },
        };
        let (flag, rest) = match split_once(rest, '|') {
            Some(parts) => parts,
            None => { return None; },
        };
        let named = if str_eq(flag, "0") {
            false
        } else if str_eq(flag, "1") {
            true
        } else {
            return None;
        };
        let (field, _) = split2(rest);
        let (avatar, _) = split_or_all(field, '\n');
        Some(UpdateUser { username, named, avatar })
    }
}

/// What kind of room was opened.
#[derive(Copy, Clone, Debug, PartialEq, Eq, Structural)]
pub enum RoomType {
    Chat,
    Battle,
}

/// A room was opened for this connection.
#[derive(Debug)]
pub struct RoomInit<'a> {
    pub room_type: RoomType,
    pub title: &'a str,
    pub users: &'a str,
}

/// An opened room, as plain text.
pub struct RoomInitView {
    pub room_type: RoomType,
    pub title: Seq<char>,
    pub users: Seq<char>,
}

impl View for RoomInit<'_> {
    type V = RoomInitView;

    open spec fn view(&self) -> RoomInitView {
        RoomInitView { room_type: self.room_type, title: self.title@, users: self.users@ }
    }
}

/// The lines of `s`: the pieces between its line breaks, in order. There is
/// always at least one, and a trailing line break gives an empty last line.
pub open spec fn lines_of(s: Seq<char>) -> Seq<Seq<char>>
    decreases s.len(),
    via lines_of_decreases
{
    if s.contains('\n') {
        seq![before(s, '\n')] + lines_of(after(s, '\n'))
    } else {
        seq![s]
    }
}

#[via_fn]
proof fn lines_of_decreases(s: Seq<char>) {
    lemma_first_index(s, '\n');
}

/// The room type that the first line of an `init` block names, if any.
pub open spec fn room_type_of(line: Seq<char>) -> Option<RoomType> {
    if line == "chat"@ {
        Some(RoomType::Chat)
    } else if line == "battle"@ {
        Some(RoomType::Battle)
    } else {
        None
    }
}

/// Whether a line below the first of an `init` block is acceptable: empty,
/// or a field that starts with `|`.
pub open spec fn is_init_line(line: Seq<char>) -> bool {
    line.len() == 0 || line[0] == '|'
}

/// Key of a field line `|key|value`.
pub open spec fn field_key(line: Seq<char>) -> Seq<char> {
    before(line.drop_first(), '|')
}

/// Value of a field line `|key|value`.
pub open spec fn field_value(line: Seq<char>) -> Seq<char> {
    after(line.drop_first(), '|')
}

/// Value of the last field among `lines` whose key is `key`, if there is one.
pub open spec fn last_value(lines: Seq<Seq<char>>, key: Seq<char>) -> Option<Seq<char>>
    decreases lines.len(),
{
    if lines.len() == 0 {
        None
    } else if lines.last().len() > 0 && field_key(lines.last()) == key {
        Some(field_value(lines.last()))
    } else {
        last_value(lines.drop_last(), key)
    }
}

/// The opened room that an `init` block stands for. Its first line names the
/// room type, every further line is empty or a field, and both a `title` and
/// a `users` field are there; of several with one key the last counts.
pub open spec fn room_init_of(args: Seq<char>) -> Option<RoomInitView> {
    let lines = lines_of(args);
    let fields = lines.drop_first();
    let room_type = room_type_of(lines[0]);
    let title = last_value(fields, "title"@);
    let users = last_value(fields, "users"@);
    if room_type is Some && title is Some && users is Some && (forall|i: int|
        0 <= i < fields.len() ==> is_init_line(#[trigger] fields[i])) {
        Some(RoomInitView { room_type: room_type->0, title: title->0, users: users->0 })
    } else {
        None
    }
}

/// First line of `s`, and what follows its line break if it has one.
fn next_line<'a>(s: &'a str) -> (r: (&'a str, Option<&'a str>))
    ensures
        match r.1 {
            Some(rest) => lines_of(s@) == seq![r.0@] + lines_of(rest@) && rest@.len() < s@.len(),
            None => lines_of(s@) == seq![r.0@],
        },
{
    match split_once(s, '\n') {
        Some((line, rest)) => {
            proof {
                lemma_first_index(s@, '\n');
            }
            (line, Some(rest))
        },
        None => (s, None),
    }
}

impl<'a> RoomInit<'a> {
    /// Reads the tail of an `init` command: a block of lines.
    pub fn parse(arguments: &'a str) -> (r: Option<RoomInit<'a>>)
        ensures
            r is Some <==> room_init_of(arguments@) is Some,
            r matches Some(room) ==> Some(room@) == room_init_of(arguments@),
    {
        let (first, mut rest) = next_line(arguments);
        let room_type = if str_eq(first, "chat") {
            RoomType::Chat
        } else if str_eq(first, "battle") {
            RoomType::Battle
        } else {
            return None;
        };
        let mut title: Option<&'a str> = None;
        let mut users: Option<&'a str> = None;
        let ghost mut seen: Seq<Seq<char>> = Seq::empty();
        while rest.is_some()
            invariant
                match rest {
                    Some(r) => lines_of(arguments@) == seq![first@] + seen + lines_of(r@),
                    None => lines_of(arguments@) == seq![first@] + seen,
                },
                forall|i: int| 0 <= i < seen.len() ==> is_init_line(#[trigger] seen[i]),
                title is Some <==> last_value(seen, "title"@) is Some,
                title matches Some(t) ==> Some(t@) == last_value(seen, "title"@),
                users is Some <==> last_value(seen, "users"@) is Some,
                users matches Some(u) ==> Some(u@) == last_value(seen, "users"@),
            decreases
                    match rest {
                        Some(r) => r@.len() + 1,
                        None => 0,
                    },
        {
            let (line, following) = next_line(rest.unwrap());
            let ghost before_line = seen;
            proof {
                reveal_strlit("title");
                reveal_strlit("users");
                assert("title"@ != "users"@) by {
                    assert("title"@[0] == 't');
                    assert("users"@[0] == 'u');
                }
                seen = seen.push(line@);
                assert(seen.drop_last() =~= before_line);
                match following {
                    Some(f) => {
                        assert(seq![first@] + before_line + (seq![line@] + lines_of(f@)) =~= seq![
                            first@,
                        ] + seen + lines_of(f@));
                    },
                    None => {
                        assert(seq![first@] + before_line + seq![line@] =~= seq![first@] + seen);
                    },
                }
            }
            rest = following;
            match strip_prefix(line, '|') {
                Some(field) => {
                    let (command, value) = split2(field);
                    if str_eq(command, "title") {
                        title = Some(value);
                    } else if str_eq(command, "users") {
                        users = Some(value);
                    }
                },
                None => {
                    if !line.is_empty() {
                        proof {
                            let lines = lines_of(arguments@);
                            let at = before_line.len() as int;
                            assert(lines.drop_first()[at] == line@);
                            assert(!is_init_line(lines.drop_first()[at]));
                        }
                        return None;
                    }
                },
            }
        }
        proof {
            assert(lines_of(arguments@).drop_first() =~= seen);
        }
        match (title, users) {
            (Some(title), Some(users)) => Some(RoomInit { room_type, title, users }),
            _ => None,
        }
    }
}

/// The server's answer to a query.
#[derive(Debug)]
#[non_exhaustive]
pub enum QueryResponse {
    Rooms(RoomsList),
}

/// An answer to a query, as plain values.
pub enum QueryResponseView {
    Rooms(RoomsListView),
}

impl View for QueryResponse {
    type V = QueryResponseView;

    open spec fn view(&self) -> QueryResponseView {
        match self {
            QueryResponse::Rooms(list) => QueryResponseView::Rooms(list@),
        }
    }
}

/// The answer that an argument tail `kind|payload` stands for. The only kind
/// is `rooms`, whose payload is the room catalog as JSON.
pub open spec fn query_response_of(args: Seq<char>) -> Option<QueryResponseView> {
    if before(args, '|') == "rooms"@ {
        match rooms_list_of_text(after(args, '|')) {
            Some(list) => Some(QueryResponseView::Rooms(list)),
            None => None,
        }
    } else {
        None
    }
}

impl QueryResponse {
    /// Reads the tail of a `queryresponse` command.
    pub fn parse(arguments: &str) -> (r: Option<QueryResponse>)
        ensures
            r is Some <==> query_response_of(arguments@) is Some,
            r matches Some(q) ==> Some(q@) == query_response_of(arguments@),
    {
        let (command, arguments) = split2(arguments);
        if str_eq(command, "rooms") {
            match RoomsList::parse(arguments) {
                Some(list) => Some(QueryResponse::Rooms(list)),
                None => None,
            }
        } else {
            None
        }
    }
}

/// The token that the server issues for logging in. Whoever presents it to
/// the login service can obtain an assertion for this connection.
#[derive(Copy, Clone, Debug)]
pub struct Challenge<'a>(pub(crate) &'a str);

impl View for Challenge<'_> {
    type V = Seq<char>;

    closed spec fn view(&self) -> Seq<char> {
        self.0@
    }
}

impl<'a> Challenge<'a> {
    /// Wraps a challenge token.
    pub fn new(token: &'a str) -> (r: Challenge<'a>)
        ensures
            r@ == token@,
    {
        Challenge(token)
    }

    /// The token as the server sent it.
    pub fn as_str(&self) -> (r: &'a str)
        ensures
            r@ == self@,
    {
        self.0
    }
}

/// Text that was not recognized as any event.
#[derive(Debug)]
pub struct UnrecognizedMessage<'a>(pub(crate) &'a str);

impl View for UnrecognizedMessage<'_> {
    type V = Seq<char>;

    closed spec fn view(&self) -> Seq<char> {
        self.0@
    }
}

impl<'a> UnrecognizedMessage<'a> {
    /// The text that was not recognized.
    pub fn as_str(&self) -> (r: &'a str)
        ensures
            r@ == self@,
    {
        self.0
    }
}

/// The event that a frame carries. Its text fields borrow from the
/// [`Message`] that it was read from.
#[derive(Debug)]
#[non_exhaustive]
pub enum Kind<'a> {
    Chat(Chat<'a>),
    Private(Private<'a>),
    Join(&'a str),
    NicknameChange(&'a str, &'a str),
    Leave(&'a str),
    /// Login challenge, which starts authentication.
    Challenge(Challenge<'a>),
    Html(&'a str),
    NoInit(NoInit<'a>),
    RoomInit(RoomInit<'a>),
    QueryResponse(QueryResponse),
    UpdateUser(UpdateUser<'a>),
    Unrecognized(UnrecognizedMessage<'a>),
}

/// An event, as plain values.
pub enum KindView {
    Chat(ChatView),
    Private(PrivateView),
    Join(Seq<char>),
    NicknameChange(Seq<char>, Seq<char>),
    Leave(Seq<char>),
    Challenge(Seq<char>),
    Html(Seq<char>),
    NoInit(NoInitView),
    RoomInit(RoomInitView),
    QueryResponse(QueryResponseView),
    UpdateUser(UpdateUserView),
    Unrecognized(Seq<char>),
}

impl View for Kind<'_> {
    type V = KindView;

    open spec fn view(&self) -> KindView {
        match self {
            Kind::Chat(chat) => KindView::Chat(chat@),
            Kind::Private(private) => KindView::Private(private@),
            Kind::Join(user) => KindView::Join(user@),
            Kind::NicknameChange(old_name, new_name) => KindView::NicknameChange(
                old_name@,
                new_name@,
            ),
            Kind::Leave(user) => KindView::Leave(user@),
            Kind::Challenge(challenge) => KindView::Challenge(challenge@),
            Kind::Html(html) => KindView::Html(html@),
            Kind::NoInit(no_init) => KindView::NoInit(no_init@),
            Kind::RoomInit(room) => KindView::RoomInit(room@),
            Kind::QueryResponse(response) => KindView::QueryResponse(response@),
            Kind::UpdateUser(update) => KindView::UpdateUser(update@),
            Kind::Unrecognized(text) => KindView::Unrecognized(text@),
        }
    }
}

/// The event that a command code and its argument tail stand for: the fixed
/// table of commands. Nothing for an unknown code, and for a known code whose
/// tail its reader rejects.
pub open spec fn event_of(code: Seq<char>, tail: Seq<char>) -> Option<KindView> {
    if code == "c:"@ {
        Some(KindView::Chat(chat_of(tail)))
    } else if code == "pm"@ {
        Some(KindView::Private(private_of(tail)))
    } else if code == "J"@ {
        Some(KindView::Join(tail))
    } else if code == "N"@ {
        Some(KindView::NicknameChange(before(tail, '|'), after(tail, '|')))
    } else if code == "L"@ {
        Some(KindView::Leave(tail))
    } else if code == "challstr"@ {
        Some(KindView::Challenge(tail))
    } else if code == "html"@ {
        Some(KindView::Html(tail))
    } else if code == "init"@ {
        match room_init_of(tail) {
            Some(room) => Some(KindView::RoomInit(room)),
            None => None,
        }
    } else if code == "noinit"@ {
        match no_init_of(tail) {
            Some(no_init) => Some(KindView::NoInit(no_init)),
            None => None,
        }
    } else if code == "queryresponse"@ {
        match query_response_of(tail) {
            Some(response) => Some(KindView::QueryResponse(response)),
            None => None,
        }
    } else if code == "updateuser"@ {
        match update_user_of(tail) {
            Some(update) => Some(KindView::UpdateUser(update)),
            None => None,
        }
    } else {
        None
    }
}

/// Whether the body of a frame is a command line: it starts with the field
/// marker `|`.
pub open spec fn is_command_line(body: Seq<char>) -> bool {
    body.len() > 0 && body[0] == '|'
}

/// Command code of a command line: what stands between the field marker and
/// the next `|`.
pub open spec fn code_of(body: Seq<char>) -> Seq<char> {
    before(body.drop_first(), '|')
}

/// Argument tail of a command line: what follows the `|` after the command
/// code, untouched.
pub open spec fn tail_of(body: Seq<char>) -> Seq<char> {
    after(body.drop_first(), '|')
}

/// The event that a frame carries. A body that is no command line is
/// unrecognized as a whole; a command line with an unknown code or a rejected
/// tail is unrecognized and keeps its tail.
pub open spec fn kind_of(frame: Seq<char>) -> KindView {
    let body = body_of(frame);
    if is_command_line(body) {
        match event_of(code_of(body), tail_of(body)) {
            Some(event) => event,
            None => KindView::Unrecognized(tail_of(body)),
        }
    } else {
        KindView::Unrecognized(body)
    }
}

impl<'a> Kind<'a> {
    /// Looks the command code up in the table of commands and reads the
    /// argument tail as that command asks.
    pub fn parse(command: &str, arguments: &'a str) -> (r: Option<Kind<'a>>)
        ensures
            r is Some <==> event_of(command@, arguments@) is Some,
            r matches Some(k) ==> Some(k@) == event_of(command@, arguments@),
    {
        if str_eq(command, "c:") {
            Some(Kind::Chat(Chat::parse(arguments)))
        } else if str_eq(command, "pm") {
            Some(Kind::Private(Private::parse(arguments)))
        } else if str_eq(command, "J") {
            Some(Kind::Join(arguments))
        } else if str_eq(command, "N") {
            let (a, b) = split2(arguments);
            Some(Kind::NicknameChange(a, b))
        } else if str_eq(command, "L") {
            Some(Kind::Leave(arguments))
        } else if str_eq(command, "challstr") {
            Some(Kind::Challenge(Challenge(arguments)))
        } else if str_eq(command, "html") {
            Some(Kind::Html(arguments))
        } else if str_eq(command, "init") {
            match RoomInit::parse(arguments) {
                Some(room) => Some(Kind::RoomInit(room)),
                None => None,
            }
        } else if str_eq(command, "noinit") {
            match NoInit::parse(arguments) {
                Some(no_init) => Some(Kind::NoInit(no_init)),
                None => None,
            }
        } else if str_eq(command, "queryresponse") {
            match QueryResponse::parse(arguments) {
                Some(response) => Some(Kind::QueryResponse(response)),
                None => None,
            }
        } else if str_eq(command, "updateuser") {
            match UpdateUser::parse(arguments) {
                Some(update) => Some(Kind::UpdateUser(update)),
                None => None,
            }
        } else {
            None
        }
    }
}

impl Message {
    /// Classifies the frame. Every frame is some event: text that fits no
    /// command is handed out as [`Kind::Unrecognized`].
    pub fn kind(&self) -> (k: Kind<'_>)
        ensures
            k@ == kind_of(self@),
    {
        let message = self.parts().1;
        match strip_prefix(message, '|') {
            Some(line) => {
                let (command, arg) = split2(line);
                match Kind::parse(command, arg) {
                    Some(kind) => kind,
                    None => Kind::Unrecognized(UnrecognizedMessage(arg)),
                }
            },
            None => Kind::Unrecognized(UnrecognizedMessage(message)),
        }
    }
}

/// Whether the reader of the command `code` rejects `tail`. Only four
/// commands have a reader that can reject: `init`, `noinit`, `queryresponse`
/// and `updateuser`.
pub open spec fn rejects(code: Seq<char>, tail: Seq<char>) -> bool {
    ||| code == "init"@ && room_init_of(tail) is None
    ||| code == "noinit"@ && no_init_of(tail) is None
    ||| code == "queryresponse"@ && query_response_of(tail) is None
    ||| code == "updateuser"@ && update_user_of(tail) is None
}

/// The four commands whose reader can reject a tail differ from the seven
/// that come before them in the table, and from each other.
proof fn lemma_codes_differ()
    ensures
        "c:"@.len() == 2,
        "pm"@.len() == 2,
        "J"@.len() == 1,
        "N"@.len() == 1,
        "L"@.len() == 1,
        "challstr"@.len() == 8,
        "html"@.len() == 4,
        "html"@[0] == 'h',
        "init"@.len() == 4,
        "init"@[0] == 'i',
        "noinit"@.len() == 6,
        "queryresponse"@.len() == 13,
        "updateuser"@.len() == 10,
{
    reveal_strlit("c:");
    reveal_strlit("pm");
    reveal_strlit("J");
    reveal_strlit("N");
    reveal_strlit("L");
    reveal_strlit("challstr");
    reveal_strlit("html");
    reveal_strlit("init");
    reveal_strlit("noinit");
    reveal_strlit("queryresponse");
    reveal_strlit("updateuser");
}

/// A command line whose code is in the table and whose tail the reader of
/// that command rejects is classified as unrecognized, and the unrecognized
/// text is that tail, untouched.
pub proof fn lemma_rejected_tail_is_unrecognized(frame: Seq<char>)
    requires
        is_command_line(body_of(frame)),
        rejects(code_of(body_of(frame)), tail_of(body_of(frame))),
    ensures
        kind_of(frame) == KindView::Unrecognized(tail_of(body_of(frame))),
{
    lemma_codes_differ();
}

/// An `init` block without a `users` field is classified as unrecognized.
pub proof fn lemma_init_without_users_is_unrecognized(frame: Seq<char>)
    requires
        is_command_line(body_of(frame)),
        code_of(body_of(frame)) == "init"@,
        last_value(lines_of(tail_of(body_of(frame))).drop_first(), "users"@) is None,
    ensures
        kind_of(frame) == KindView::Unrecognized(tail_of(body_of(frame))),
{
    lemma_rejected_tail_is_unrecognized(frame);
}

/// An `updateuser` line whose second field is neither `0` nor `1` is
/// classified as unrecognized.
pub proof fn lemma_update_user_flag_is_unrecognized(frame: Seq<char>)
    requires
        is_command_line(body_of(frame)),
        code_of(body_of(frame)) == "updateuser"@,
        named_flag_of(before(after(tail_of(body_of(frame)), '|'), '|')) is None,
    ensures
        kind_of(frame) == KindView::Unrecognized(tail_of(body_of(frame))),
{
    lemma_rejected_tail_is_unrecognized(frame);
}

/// Every event that is not unrecognized comes from a command line whose code
/// is in the table and whose tail the reader of that command accepts.
pub proof fn lemma_recognized_is_accepted(frame: Seq<char>)
    requires
        !(kind_of(frame) is Unrecognized),
    ensures
        is_command_line(body_of(frame)),
        event_of(code_of(body_of(frame)), tail_of(body_of(frame))) == Some(kind_of(frame)),
        !rejects(code_of(body_of(frame)), tail_of(body_of(frame))),
{
    lemma_codes_differ();
}

} // verus!
