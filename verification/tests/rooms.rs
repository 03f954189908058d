use showdown::message::{Room, RoomsList};

fn catalog(text: &str) -> Option<RoomsList> {
    RoomsList::parse(text)
}

#[test]
fn rooms_come_out_in_their_fixed_order() {
    let list = catalog(
        r#"{"chat":[{"title":"chat one","desc":"","userCount":3},{"title":"chat two","desc":"","userCount":4}],
            "pspl":[{"title":"featured","desc":"","userCount":2}],
            "official":[{"title":"official","desc":"","userCount":1}],
            "userCount":10,"battleCount":5}"#,
    )
    .unwrap();
    let titles: Vec<&str> = list.iter().into_iter().map(|room| room.title.as_str()).collect();
    assert_eq!(titles, vec!["official", "featured", "chat one", "chat two"]);
    let counts: Vec<u32> = list.iter().into_iter().map(|room| room.user_count).collect();
    assert_eq!(counts, vec![1, 2, 3, 4]);
    assert_eq!(list.official.len(), 1);
    assert_eq!(list.pspl.len(), 1);
    assert_eq!(list.chat.len(), 2);
}

#[test]
fn empty_catalog() {
    let list =
        catalog(r#"{"official":[],"pspl":[],"chat":[],"userCount":0,"battleCount":0}"#).unwrap();
    assert!(list.iter().is_empty());
    assert_eq!(list.user_count, 0);
    assert_eq!(list.battle_count, 0);
}

#[test]
fn sub_rooms_are_optional() {
    let list = catalog(
        r#"{"official":[{"title":"Tournaments","desc":"d","userCount":7,"subRooms":["Tours Plaza","Tours élite"]}],
            "pspl":[],"chat":[{"title":"x","desc":"y","userCount":0,"subRooms":[]}],
            "userCount":1,"battleCount":2}"#,
    )
    .unwrap();
    assert_eq!(list.official[0].sub_rooms, vec!["Tours Plaza", "Tours élite"]);
    assert!(list.chat[0].sub_rooms.is_empty());
}

#[test]
fn unknown_members_are_ignored() {
    let list = catalog(
        r#"{"official":[{"title":"a","desc":"b","userCount":1,"section":"Official"}],
            "pspl":[],"chat":[],"sectionTitles":["Official"],"userCount":1,"battleCount":2}"#,
    )
    .unwrap();
    assert_eq!(list.official[0].title, "a");
}

#[test]
fn catalog_with_a_missing_member_is_refused() {
    assert!(catalog(r#"{"pspl":[],"chat":[],"userCount":0,"battleCount":0}"#).is_none());
    assert!(catalog(r#"{"official":[],"chat":[],"userCount":0,"battleCount":0}"#).is_none());
    assert!(catalog(r#"{"official":[],"pspl":[],"userCount":0,"battleCount":0}"#).is_none());
    assert!(catalog(r#"{"official":[],"pspl":[],"chat":[],"battleCount":0}"#).is_none());
    assert!(catalog(r#"{"official":[],"pspl":[],"chat":[],"userCount":0}"#).is_none());
}

#[test]
fn catalog_with_a_member_of_the_wrong_type_is_refused() {
    assert!(catalog(r#"{"official":{},"pspl":[],"chat":[],"userCount":0,"battleCount":0}"#).is_none());
    assert!(catalog(r#"{"official":[],"pspl":[],"chat":[],"userCount":"0","battleCount":0}"#).is_none());
    assert!(catalog(r#"{"official":[],"pspl":[],"chat":[],"userCount":-1,"battleCount":0}"#).is_none());
    assert!(catalog(r#"{"official":[],"pspl":[],"chat":[],"userCount":1.5,"battleCount":0}"#).is_none());
    assert!(catalog(r#"[]"#).is_none());
    assert!(catalog(r#""rooms""#).is_none());
}

#[test]
fn counts_must_fit_32_bits() {
    assert!(catalog(r#"{"official":[],"pspl":[],"chat":[],"userCount":4294967295,"battleCount":0}"#).is_some());
    assert!(catalog(r#"{"official":[],"pspl":[],"chat":[],"userCount":4294967296,"battleCount":0}"#).is_none());
    assert!(catalog(r#"{"official":[{"title":"a","desc":"b","userCount":4294967296}],"pspl":[],"chat":[],"userCount":0,"battleCount":0}"#).is_none());
}

#[test]
fn room_with_a_missing_or_wrong_member_is_refused() {
    let room = |text: &str| Room::from_json(&serde_json::from_str(text).unwrap());
    assert!(room(r#"{"title":"a","desc":"b","userCount":1}"#).is_some());
    assert!(room(r#"{"desc":"b","userCount":1}"#).is_none());
    assert!(room(r#"{"title":"a","userCount":1}"#).is_none());
    assert!(room(r#"{"title":"a","desc":"b"}"#).is_none());
    assert!(room(r#"{"title":1,"desc":"b","userCount":1}"#).is_none());
    assert!(room(r#"{"title":"a","desc":null,"userCount":1}"#).is_none());
    assert!(room(r#"{"title":"a","desc":"b","userCount":1,"subRooms":null}"#).is_none());
    assert!(room(r#"{"title":"a","desc":"b","userCount":1,"subRooms":["x",2]}"#).is_none());
    assert!(room(r#"["a","b",1]"#).is_none());
}

#[test]
fn one_bad_room_refuses_the_catalog() {
    assert!(catalog(
        r#"{"official":[{"title":"a","desc":"b","userCount":1},{"title":"c"}],
            "pspl":[],"chat":[],"userCount":0,"battleCount":0}"#
    )
    .is_none());
}

#[test]
fn text_that_is_no_json_is_refused() {
    assert!(catalog("").is_none());
    assert!(catalog("{").is_none());
    assert!(catalog(r#"{"official":[],"pspl":[],"chat":[],"userCount":0,"battleCount":0} x"#).is_none());
}
