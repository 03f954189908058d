//! The room catalog that the server sends in answer to a `rooms` query.

use crate::json::{
    get_number, get_text, items, items_of, json_parse, json_tree, member, member_of,
    number_member, parse, text, text_member, text_of, trees_of, Json,
};
use serde_json::Value;
use vstd::prelude::*;
use vstd::utf8::encode_utf8;

verus! {

/// One room of the catalog.
#[derive(Debug)]
pub struct Room {
    pub title: String,
    pub desc: String,
    pub user_count: u32,
    pub sub_rooms: Vec<String>,
}

/// One room of the catalog, as plain values.
pub struct RoomView {
    pub title: Seq<char>,
    pub desc: Seq<char>,
    pub user_count: u32,
    pub sub_rooms: Seq<Seq<char>>,
}

impl View for Room {
    type V = RoomView;

    open spec fn view(&self) -> RoomView {
        RoomView {
            title: self.title@,
            desc: self.desc@,
            user_count: self.user_count,
            sub_rooms: texts(self.sub_rooms@),
        }
    }
}

/// The room catalog: official rooms, featured rooms and other chat rooms,
/// with the server's totals.
#[derive(Debug)]
pub struct RoomsList {
    pub official: Vec<Room>,
    pub pspl: Vec<Room>,
    pub chat: Vec<Room>,
    pub user_count: u32,
    pub battle_count: u32,
}

/// The room catalog, as plain values.
pub struct RoomsListView {
    pub official: Seq<RoomView>,
    pub pspl: Seq<RoomView>,
    pub chat: Seq<RoomView>,
    pub user_count: u32,
    pub battle_count: u32,
}

/// The texts of a list of strings.
pub open spec fn texts(names: Seq<String>) -> Seq<Seq<char>> {
    names.map_values(|name: String| name@)
}

/// The rooms that a list of borrowed rooms points at.
pub open spec fn borrowed(rooms: Seq<&Room>) -> Seq<Room> {
    rooms.map_values(|room: &Room| *room)
}

/// The plain values of a list of rooms.
pub open spec fn room_views(rooms: Seq<Room>) -> Seq<RoomView> {
    rooms.map_values(|room: Room| room@)
}

impl View for RoomsList {
    type V = RoomsListView;

    open spec fn view(&self) -> RoomsListView {
        RoomsListView {
            official: room_views(self.official@),
            pspl: room_views(self.pspl@),
            chat: room_views(self.chat@),
            user_count: self.user_count,
            battle_count: self.battle_count,
        }
    }
}

/// Value of the number member under `key`, where it fits 32 bits.
pub open spec fn count_member(tree: Json, key: Seq<char>) -> Option<u32> {
    match number_member(tree, key) {
        Some(n) => if n <= u32::MAX {
            Some(n as u32)
        } else {
            None
        },
        None => None,
    }
}

/// The texts of a list of strings; nothing where one element is no string.
pub open spec fn names_of(list: Seq<Json>) -> Option<Seq<Seq<char>>> {
    if forall|i: int| 0 <= i < list.len() ==> text_of(#[trigger] list[i]) is Some {
        Some(list.map_values(|tree: Json| text_of(tree)->0))
    } else {
        None
    }
}

/// The sub-room names of a room: the strings under `subRooms`, and none where
/// that member is missing.
pub open spec fn sub_rooms_of(tree: Json) -> Option<Seq<Seq<char>>> {
    match member_of(tree, "subRooms"@) {
        Some(found) => match items_of(found) {
            Some(list) => names_of(list),
            None => None,
        },
        None => Some(Seq::empty()),
    }
}

/// The room that an object with `title`, `desc`, `userCount` and, if it likes,
/// `subRooms` stands for.
pub open spec fn room_of_json(tree: Json) -> Option<RoomView> {
    match (
        text_member(tree, "title"@),
        text_member(tree, "desc"@),
        count_member(tree, "userCount"@),
        sub_rooms_of(tree),
    ) {
        (Some(title), Some(desc), Some(user_count), Some(sub_rooms)) => Some(
            RoomView { title, desc, user_count, sub_rooms },
        ),
        _ => None,
    }
}

/// The rooms of a list of objects; nothing where one element is no room.
pub open spec fn rooms_of_json(list: Seq<Json>) -> Option<Seq<RoomView>> {
    if forall|i: int| 0 <= i < list.len() ==> room_of_json(#[trigger] list[i]) is Some {
        Some(list.map_values(|tree: Json| room_of_json(tree)->0))
    } else {
        None
    }
}

/// The rooms of the array member under `key`.
pub open spec fn rooms_member(tree: Json, key: Seq<char>) -> Option<Seq<RoomView>> {
    match member_of(tree, key) {
        Some(found) => match items_of(found) {
            Some(list) => rooms_of_json(list),
            None => None,
        },
        None => None,
    }
}

/// The catalog that an object with the room lists `official`, `pspl` and
/// `chat` and the totals `userCount` and `battleCount` stands for.
pub open spec fn rooms_list_of(tree: Json) -> Option<RoomsListView> {
    match (
        rooms_member(tree, "official"@),
        rooms_member(tree, "pspl"@),
        rooms_member(tree, "chat"@),
        count_member(tree, "userCount"@),
        count_member(tree, "battleCount"@),
    ) {
        (Some(official), Some(pspl), Some(chat), Some(user_count), Some(battle_count)) => Some(
            RoomsListView { official, pspl, chat, user_count, battle_count },
        ),
        _ => None,
    }
}

/// The catalog that a JSON text stands for; nothing where the text is no
/// JSON document or the document is no catalog.
pub open spec fn rooms_list_of_text(text: Seq<char>) -> Option<RoomsListView> {
    match json_parse(encode_utf8(text)) {
        Some(tree) => rooms_list_of(tree),
        None => None,
    }
}

/// Reads the number member under `key`, where it fits 32 bits.
fn get_count(value: &Value, key: &str) -> (r: Option<u32>)
    ensures
        r == count_member(json_tree(*value), key@),
{
    match get_number(value, key) {
        Some(n) => if n <= 0xffff_ffff {
            Some(n as u32)
        } else {
            None
        },
        None => None,
    }
}

/// Copies the texts of a list of strings.
fn read_names(list: &Vec<Value>) -> (r: Option<Vec<String>>)
    ensures
        r is Some <==> names_of(trees_of(list@)) is Some,
        r matches Some(names) ==> Some(texts(names@)) == names_of(trees_of(list@)),
{
    let ghost trees = trees_of(list@);
    let mut names: Vec<String> = Vec::new();
    let mut i: usize = 0;
    while i < list.len()
        invariant
            i <= list.len(),
            names.len() == i,
            trees == trees_of(list@),
            forall|j: int| 0 <= j < i ==> text_of(trees[j]) == Some(#[trigger] names@[j]@),
        decreases list.len() - i,
    {
        match text(&list[i]) {
            Some(name) => names.push(name.to_owned()),
            None => {
                assert(text_of(trees[i as int]) is None);
                return None;
            },
        }
        i += 1;
    }
    proof {
        assert forall|j: int| 0 <= j < trees.len() implies text_of(#[trigger] trees[j]) is Some by {
            assert(text_of(trees[j]) == Some(names@[j]@));
        }
        assert(texts(names@) =~= names_of(trees)->0);
    }
    Some(names)
}

/// Copies the sub-room names of a room.
fn get_sub_rooms(value: &Value) -> (r: Option<Vec<String>>)
    ensures
        r is Some <==> sub_rooms_of(json_tree(*value)) is Some,
        r matches Some(names) ==> Some(texts(names@)) == sub_rooms_of(json_tree(*value)),
{
    match member(value, "subRooms") {
        Some(found) => match items(found) {
            Some(list) => read_names(list),
            None => None,
        },
        None => {
            let names: Vec<String> = Vec::new();
            assert(texts(names@) =~= Seq::<Seq<char>>::empty());
            Some(names)
        },
    }
}

impl Room {
    /// Reads one room of the catalog from its decoded object.
    pub fn from_json(value: &Value) -> (r: Option<Room>)
        ensures
            r is Some <==> room_of_json(json_tree(*value)) is Some,
            r matches Some(room) ==> Some(room@) == room_of_json(json_tree(*value)),
    {
        let title = match get_text(value, "title") {
            Some(title) => title,
            None => { return None; },
        };
        let desc = match get_text(value, "desc") {
            Some(desc) => desc,
            None => { return None; },
        };
        let user_count = match get_count(value, "userCount") {
            Some(user_count) => user_count,
            None => { return None; },
        };
        let sub_rooms = match get_sub_rooms(value) {
            Some(sub_rooms) => sub_rooms,
            None => { return None; },
        };
        Some(Room { title, desc, user_count, sub_rooms })
    }
}

/// Reads the rooms of a list of objects.
fn read_rooms(list: &Vec<Value>) -> (r: Option<Vec<Room>>)
    ensures
        r is Some <==> rooms_of_json(trees_of(list@)) is Some,
        r matches Some(rooms) ==> Some(room_views(rooms@)) == rooms_of_json(trees_of(list@)),
{
    let ghost trees = trees_of(list@);
    let mut rooms: Vec<Room> = Vec::new();
    let mut i: usize = 0;
    while i < list.len()
        invariant
            i <= list.len(),
            rooms.len() == i,
            trees == trees_of(list@),
            forall|j: int| 0 <= j < i ==> room_of_json(trees[j]) == Some(#[trigger] rooms@[j]@),
        decreases list.len() - i,
    {
        match Room::from_json(&list[i]) {
            Some(room) => rooms.push(room),
            None => {
                assert(room_of_json(trees[i as int]) is None);
                return None;
            },
        }
        i += 1;
    }
    proof {
        assert forall|j: int| 0 <= j < trees.len() implies room_of_json(
            #[trigger] trees[j],
        ) is Some by {
            assert(room_of_json(trees[j]) == Some(rooms@[j]@));
        }
        assert(room_views(rooms@) =~= rooms_of_json(trees)->0);
    }
    Some(rooms)
}

/// Reads the rooms of the array member under `key`.
fn get_rooms(value: &Value, key: &str) -> (r: Option<Vec<Room>>)
    ensures
        r is Some <==> rooms_member(json_tree(*value), key@) is Some,
        r matches Some(rooms) ==> Some(room_views(rooms@)) == rooms_member(
            json_tree(*value),
            key@,
        ),
{
    match member(value, key) {
        Some(found) => match items(found) {
            Some(list) => read_rooms(list),
            None => None,
        },
        None => None,
    }
}

impl RoomsList {
    /// Reads the catalog from its decoded object.
    pub fn from_json(value: &Value) -> (r: Option<RoomsList>)
        ensures
            r is Some <==> rooms_list_of(json_tree(*value)) is Some,
            r matches Some(list) ==> Some(list@) == rooms_list_of(json_tree(*value)),
    {
        let official = match get_rooms(value, "official") {
            Some(rooms) => rooms,
            None => { return None; },
        };
        let pspl = match get_rooms(value, "pspl") {
            Some(rooms) => rooms,
            None => { return None; },
        };
        let chat = match get_rooms(value, "chat") {
            Some(rooms) => rooms,
            None => { return None; },
        };
        let user_count = match get_count(value, "userCount") {
            Some(count) => count,
            None => { return None; },
        };
        let battle_count = match get_count(value, "battleCount") {
            Some(count) => count,
            None => { return None; },
        };
        Some(RoomsList { official, pspl, chat, user_count, battle_count })
    }

    /// Decodes the catalog from the JSON text of a `rooms` answer.
    pub fn parse(arguments: &str) -> (r: Option<RoomsList>)
        ensures
            r is Some <==> rooms_list_of_text(arguments@) is Some,
            r matches Some(list) ==> Some(list@) == rooms_list_of_text(arguments@),
    {
        match parse(arguments.as_bytes()) {
            Ok(value) => RoomsList::from_json(&value),
            Err(_) => None,
        }
    }

    /// All rooms in their fixed order: the official ones, then the featured
    /// ones, then the other chat rooms.
    pub fn iter(&self) -> (r: Vec<&Room>)
        ensures
            borrowed(r@) == self.official@ + self.pspl@ + self.chat@,
    {
        let mut all: Vec<&Room> = Vec::new();
        assert(borrowed(all@) =~= Seq::<Room>::empty());
        append_rooms(&mut all, &self.official);
        append_rooms(&mut all, &self.pspl);
        append_rooms(&mut all, &self.chat);
        assert(borrowed(all@) =~= self.official@ + self.pspl@ + self.chat@);
        all
    }
}

/// Appends a borrow of each room of `rooms` to `all`, in order.
fn append_rooms<'a>(all: &mut Vec<&'a Room>, rooms: &'a Vec<Room>)
    ensures
        borrowed(final(all)@) == borrowed(old(all)@) + rooms@,
{
    let ghost start = all@;
    let mut i: usize = 0;
    while i < rooms.len()
        invariant
            i <= rooms.len(),
            all@.len() == start.len() + i,
            forall|j: int| 0 <= j < start.len() ==> all@[j] == start[j],
            forall|j: int| 0 <= j < i ==> *all@[start.len() + j] == rooms@[j],
        decreases rooms.len() - i,
    {
        all.push(&rooms[i]);
        i += 1;
    }
    assert(borrowed(all@) =~= borrowed(start) + rooms@);
}

} // verus!
