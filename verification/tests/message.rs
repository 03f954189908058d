use showdown::message::{
    Chat, Kind, Message, NoInit, NoInitKind, Private, QueryResponse, RoomInit, RoomType,
    UpdateUser,
};
use showdown::RoomId;
use time::{Date, Month};

fn frame(text: &str) -> Message {
    Message::new(text.to_string())
}

fn unrecognized(text: &str) -> String {
    match frame(text).kind() {
        Kind::Unrecognized(rest) => rest.as_str().to_string(),
        other => panic!("recognized as {:?}", other),
    }
}

#[test]
fn parse_join() {
    assert!(matches!(
        Message {
            raw: "|J|+xfix".into()
        }
        .kind(),
        Kind::Join("+xfix")
    ));
}

#[test]
fn parse_nickname_change() {
    assert!(matches!(
        Message {
            raw: "|N|+xfix|@xfix".into()
        }
        .kind(),
        Kind::NicknameChange("+xfix", "@xfix")
    ));
}

#[test]
fn parse_leave() {
    assert!(matches!(
        Message {
            raw: "|L|+xfix".into()
        }
        .kind(),
        Kind::Leave("+xfix")
    ));
}

#[test]
fn parsing_chat_messages() {
    let message = frame("|c:|1634571729|+xfix|Hello|world");
    let chat = match message.kind() {
        Kind::Chat(chat) => chat,
        _ => unreachable!(),
    };
    assert_eq!(message.room().0, RoomId::lobby().0);
    assert_eq!(message.room().0, "lobby");
    assert_eq!(chat.raw_timestamp(), "1634571729");
    assert_eq!(
        chat.timestamp(),
        Some(
            Date::from_calendar_date(2021, Month::October, 18)
                .unwrap()
                .with_hms(15, 42, 9)
                .unwrap()
                .assume_utc()
        ),
    );
    assert_eq!(chat.user(), "+xfix");
    assert_eq!(chat.message(), "Hello|world");
}

#[test]
fn room_comes_from_the_envelope() {
    let message = frame(">battle-gen8ou-1\n|c:|0|+xfix|gl hf");
    assert_eq!(message.room().0, "battle-gen8ou-1");
    match message.kind() {
        Kind::Chat(chat) => {
            assert_eq!(chat.user(), "+xfix");
            assert_eq!(chat.message(), "gl hf");
        }
        _ => unreachable!(),
    }
}

#[test]
fn envelope_without_a_body() {
    let message = frame(">lonely");
    assert_eq!(message.room().0, "lonely");
    assert!(matches!(message.kind(), Kind::Unrecognized(_)));
    assert_eq!(unrecognized(">lonely"), "");
}

#[test]
fn envelope_ends_at_the_first_line_break() {
    let message = frame(">a\n|html|one\ntwo");
    assert_eq!(message.room().0, "a");
    assert!(matches!(message.kind(), Kind::Html("one\ntwo")));
}

#[test]
fn empty_frame_is_unrecognized() {
    let message = frame("");
    assert_eq!(message.room().0, "lobby");
    assert_eq!(unrecognized(""), "");
}

#[test]
fn body_without_field_marker_is_unrecognized_as_a_whole() {
    assert_eq!(unrecognized("plain text | with pipe"), "plain text | with pipe");
    assert_eq!(unrecognized(">room\nplain"), "plain");
}

#[test]
fn unknown_code_keeps_its_tail() {
    assert_eq!(unrecognized("|customgroups|a|b"), "a|b");
    assert_eq!(unrecognized("|formats"), "");
    assert_eq!(unrecognized("||"), "");
}

#[test]
fn codes_are_case_sensitive() {
    assert_eq!(unrecognized("|j|+xfix"), "+xfix");
    assert_eq!(unrecognized("|C:|0|a|b"), "0|a|b");
}

#[test]
fn chat_message_loses_one_trailing_line_break() {
    match frame("|c:|1|user|text\n\n").kind() {
        Kind::Chat(chat) => assert_eq!(chat.message(), "text\n"),
        _ => unreachable!(),
    }
    match frame("|c:|1|user|text\n").kind() {
        Kind::Chat(chat) => assert_eq!(chat.message(), "text"),
        _ => unreachable!(),
    }
}

#[test]
fn chat_with_missing_fields() {
    let chat = Chat::parse("123");
    assert_eq!(chat.raw_timestamp(), "123");
    assert_eq!(chat.user(), "");
    assert_eq!(chat.message(), "");
    let chat = Chat::parse("");
    assert_eq!(chat.raw_timestamp(), "");
    assert_eq!(chat.user(), "");
    assert_eq!(chat.message(), "");
}

#[test]
fn chat_with_text_beyond_ascii() {
    match frame("|c:|5|☆Zoé|ça va|très bien ✓\n").kind() {
        Kind::Chat(chat) => {
            assert_eq!(chat.user(), "☆Zoé");
            assert_eq!(chat.message(), "ça va|très bien ✓");
        }
        _ => unreachable!(),
    }
    let message = frame(">café\n|J|☆Zoé");
    assert_eq!(message.room().0, "café");
    assert!(matches!(message.kind(), Kind::Join("☆Zoé")));
}

#[test]
fn private_message_fields() {
    match frame("|pm| alice|+bob|hi|there\n").kind() {
        Kind::Private(Private { from, to, message }) => {
            assert_eq!(from, " alice");
            assert_eq!(to, "+bob");
            assert_eq!(message, "hi|there");
        }
        _ => unreachable!(),
    }
}

#[test]
fn nickname_change_without_new_name() {
    assert!(matches!(
        frame("|N|+xfix").kind(),
        Kind::NicknameChange("+xfix", "")
    ));
}

#[test]
fn challenge_keeps_the_whole_tail() {
    match frame("|challstr|4|0123abcd").kind() {
        Kind::Challenge(challenge) => assert_eq!(challenge.as_str(), "4|0123abcd"),
        _ => unreachable!(),
    }
}

#[test]
fn html_keeps_the_whole_tail() {
    assert!(matches!(
        frame("|html|<b>a|b</b>").kind(),
        Kind::Html("<b>a|b</b>")
    ));
}

#[test]
fn no_init_kinds() {
    assert!(matches!(
        frame("|noinit|nonexistent|The room does not exist.").kind(),
        Kind::NoInit(NoInit {
            kind: NoInitKind::Nonexistent,
            reason: "The room does not exist."
        })
    ));
    assert!(matches!(
        frame("|noinit|joinfailed|You are banned.").kind(),
        Kind::NoInit(NoInit {
            kind: NoInitKind::JoinFailed,
            reason: "You are banned."
        })
    ));
    assert!(matches!(
        frame("|noinit|namerequired|Pick a name.").kind(),
        Kind::NoInit(NoInit {
            kind: NoInitKind::NameRequired,
            reason: "Pick a name."
        })
    ));
    assert!(matches!(
        NoInit::parse("namerequired"),
        Some(NoInit {
            kind: NoInitKind::NameRequired,
            reason: ""
        })
    ));
}

#[test]
fn no_init_with_unknown_kind_is_unrecognized() {
    assert_eq!(unrecognized("|noinit|rename|newroom"), "rename|newroom");
    assert_eq!(unrecognized("|noinit|"), "");
    assert!(NoInit::parse("Nonexistent|x").is_none());
    assert!(NoInitKind::parse("").is_none());
    assert_eq!(NoInitKind::parse("joinfailed"), Some(NoInitKind::JoinFailed));
}

#[test]
fn room_init_block() {
    match frame(">lobby\n|init|chat\n|title|Lobby\n|users|2,@a,+b\n|:|1634571729\n").kind() {
        Kind::RoomInit(RoomInit {
            room_type,
            title,
            users,
        }) => {
            assert_eq!(room_type, RoomType::Chat);
            assert_eq!(title, "Lobby");
            assert_eq!(users, "2,@a,+b");
        }
        _ => unreachable!(),
    }
    match RoomInit::parse("battle\n\n|users|0\n\n|title|a|b") {
        Some(room) => {
            assert_eq!(room.room_type, RoomType::Battle);
            assert_eq!(room.title, "a|b");
            assert_eq!(room.users, "0");
        }
        None => unreachable!(),
    }
}

#[test]
fn room_init_takes_the_last_of_repeated_fields() {
    let room = RoomInit::parse("chat\n|title|first\n|users|1,a\n|title|second\n|users").unwrap();
    assert_eq!(room.title, "second");
    assert_eq!(room.users, "");
}

#[test]
fn room_init_without_users_is_unrecognized() {
    assert_eq!(
        unrecognized("|init|chat\n|title|Lobby\n"),
        "chat\n|title|Lobby\n"
    );
    assert!(RoomInit::parse("chat\n|title|Lobby").is_none());
}

#[test]
fn room_init_without_title_is_unrecognized() {
    assert_eq!(unrecognized("|init|chat\n|users|1,a"), "chat\n|users|1,a");
    assert!(RoomInit::parse("battle").is_none());
}

#[test]
fn room_init_with_unknown_type_is_unrecognized() {
    assert!(RoomInit::parse("lobby\n|title|a\n|users|b").is_none());
    assert!(RoomInit::parse("\n|title|a\n|users|b").is_none());
    assert!(RoomInit::parse("").is_none());
    assert_eq!(
        unrecognized("|init|Chat\n|title|a\n|users|b"),
        "Chat\n|title|a\n|users|b"
    );
}

#[test]
fn room_init_with_a_line_that_is_no_field_is_unrecognized() {
    assert!(RoomInit::parse("chat\n|title|a\n|users|b\nstray").is_none());
    assert!(RoomInit::parse("chat\nstray\n|title|a\n|users|b").is_none());
    assert!(RoomInit::parse("chat\n|title|a\n|users|b\n ").is_none());
}

#[test]
fn update_user_fields() {
    assert!(matches!(
        frame("|updateuser| Guest 12|0|102|{\"blockChallenges\":false}").kind(),
        Kind::UpdateUser(UpdateUser {
            username: " Guest 12",
            named: false,
            avatar: "102",
        })
    ));
    assert!(matches!(
        frame("|updateuser|xfix|1|lucas\n|c:|0|a|b").kind(),
        Kind::UpdateUser(UpdateUser {
            username: "xfix",
            named: true,
            avatar: "lucas",
        })
    ));
    assert!(matches!(
        UpdateUser::parse("|1|"),
        Some(UpdateUser {
            username: "",
            named: true,
            avatar: "",
        })
    ));
}

#[test]
fn update_user_with_other_flag_is_unrecognized() {
    assert_eq!(unrecognized("|updateuser|xfix|2|lucas"), "xfix|2|lucas");
    assert_eq!(unrecognized("|updateuser|xfix|true|lucas"), "xfix|true|lucas");
    assert_eq!(unrecognized("|updateuser|xfix||lucas"), "xfix||lucas");
    assert!(UpdateUser::parse("xfix|01|lucas").is_none());
}

#[test]
fn update_user_with_missing_fields_is_unrecognized() {
    assert_eq!(unrecognized("|updateuser|xfix"), "xfix");
    assert_eq!(unrecognized("|updateuser|xfix|1"), "xfix|1");
    assert!(UpdateUser::parse("").is_none());
}

#[test]
fn parsing_roomlist() {
    let message = frame(
        r#"|queryresponse|rooms|{
                "official": [
                    {
                        "title": "a\"b",
                        "desc": "\n",
                        "userCount": 2
                    }
                ],
                "pspl": [],
                "chat": [
                    {
                        "title": "Nice room",
                        "desc": "No need to own that one",
                        "userCount": 1
                    }
                ],
                "userCount": 42,
                "battleCount": 24
            }"#,
    );
    match message.kind() {
        Kind::QueryResponse(QueryResponse::Rooms(rooms_list)) => {
            let mut iter = rooms_list.iter().into_iter();
            match iter.next() {
                Some(room) => {
                    assert_eq!(room.title, "a\"b");
                    assert_eq!(room.desc, "\n");
                    assert_eq!(room.user_count, 2);
                    assert!(room.sub_rooms.is_empty());
                }
                _ => unreachable!(),
            }
            match iter.next() {
                Some(room) => {
                    assert_eq!(room.title, "Nice room");
                    assert_eq!(room.desc, "No need to own that one");
                    assert_eq!(room.user_count, 1);
                }
                _ => unreachable!(),
            }
            assert!(iter.next().is_none());
            assert_eq!(rooms_list.user_count, 42);
            assert_eq!(rooms_list.battle_count, 24);
        }
        _ => unreachable!(),
    }
}

#[test]
fn query_response_of_another_kind_is_unrecognized() {
    assert_eq!(
        unrecognized("|queryresponse|userdetails|{\"id\":\"xfix\"}"),
        "userdetails|{\"id\":\"xfix\"}"
    );
    assert!(QueryResponse::parse("rooms").is_none());
}

#[test]
fn query_response_with_broken_json_is_unrecognized() {
    assert_eq!(unrecognized("|queryresponse|rooms|{"), "rooms|{");
    assert_eq!(unrecognized("|queryresponse|rooms|null"), "rooms|null");
    assert_eq!(
        unrecognized("|queryresponse|rooms|{\"official\":[],\"pspl\":[],\"chat\":[],\"userCount\":1}"),
        "rooms|{\"official\":[],\"pspl\":[],\"chat\":[],\"userCount\":1}"
    );
}
