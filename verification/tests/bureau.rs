use vscp::bureau::{Bureau, BureauConfig, ScriptAction, BROADCAST_ID};
use vscp::listener::ListenerEvent;
use vscp::math::{Mat3, Vector3};
use vscp::packets;
use vscp::protocol::{ByteWriter, MsgCommon, Strategy};
use vscp::user::{Polled, ReadOutcome, UserEvent};
use vscp::user_list::{AuraChange, Offer};

const ONE: i32 = 65535;

fn config(max_users: i32) -> BureauConfig {
    BureauConfig {
        connect_timeout: 10,
        max_users,
        max_queue: 10,
        aura_radius: 200 * ONE,
        wrl: None,
    }
}

/// A bureau with the users 1 to `n`, all at the origin and not yet in each
/// other's aura, with empty outboxes.
fn bureau_of(n: i32) -> Bureau {
    let mut bureau = Bureau::new(5126, config(16));
    for id in 1..=n {
        assert!(bureau.add(id, Some(14)));
    }
    drain(&mut bureau);
    bureau
}

fn drain(bureau: &mut Bureau) {
    for id in bureau.ids() {
        let _ = bureau.users_mut().take_outbox(id);
    }
}

fn outbox(bureau: &mut Bureau, id: i32) -> Vec<Vec<u8>> {
    bureau.users_mut().take_outbox(id)
}

fn name(bureau: &mut Bureau, id: i32, name: &str) {
    let mut body = name.as_bytes().to_vec();
    body.extend(b"\0avtwrl/a.wrl\0");
    let event = bureau.users_mut().get(id).map(|_| ()).and_then(|_| {
        let mut user_event = None;
        let mut header = vec![0u8; 8];
        header.extend(0u32.to_be_bytes());
        header.extend((body.len() as u32).to_be_bytes());
        for part in [vec![0u8], header, body.clone()] {
            if let Polled::Event(e) = bureau.users_mut().poll(id, ReadOutcome::Data(part)) {
                user_event = Some(e);
            }
        }
        user_event
    });
    assert!(matches!(event, Some(UserEvent::NewUser(_, _))));
    let _ = outbox(bureau, id);
}

fn chat(id: i32, text: &str) -> Vec<u8> {
    packets::text_message(id, id, MsgCommon::ChatSend, Strategy::AllClientsExceptSender, text)
}

fn relay(id: i32, msg_type: MsgCommon, text: &str) -> Vec<u8> {
    packets::text_message(id, id, msg_type, Strategy::AuraClientsExceptSender, text)
}

#[test]
fn new_bureau() {
    let bureau = Bureau::new(4000, config(3));
    assert_eq!(bureau.port(), 4000);
    assert_eq!(bureau.config().max_users, 3);
    assert_eq!(bureau.config().aura_radius, 200 * ONE);
    assert_eq!(bureau.user_count(), 0);
    assert!(bureau.ids().is_empty());
    assert_eq!(bureau.listener().pending(), 0);
    assert_eq!(bureau.listener().port(), 4000);
    assert_eq!(bureau.users().max_users(), 3);
}

#[test]
fn handshake_reply_for_the_first_client() {
    let mut bureau = Bureau::new(4000, config(3));
    match bureau.users_mut().offer() {
        Offer::Hello(id, bytes) => {
            assert_eq!(id, 1);
            assert_eq!(
                bytes,
                vec![0x68, 0x65, 0x6C, 0x6C, 0x6F, 0x00, 0x00, 0x00, 0x00, 0x01, 0x00, 0x00, 0x00, 0x01]
            );
            assert!(bureau.add(id, Some(bytes.len())));
        }
        Offer::Reject(_) => panic!(),
    }
    assert_eq!(outbox(&mut bureau, 1), vec![packets::user_count(1)]);
}

#[test]
fn handshake_from_the_first_byte_to_the_greeting() {
    let mut bureau = Bureau::new(4000, config(3));
    assert_eq!(bureau.listener_mut().accept(900, 0), ListenerEvent::Incoming(900));
    let want = bureau.listener().wants(0);
    assert_eq!(want, 7);
    let read = ReadOutcome::Data(vec![0x68, 0x65, 0x6C, 0x6C, 0x6F, 0x01, 0x01]);
    assert_eq!(
        bureau.listener_mut().poll_event(0, read, 0),
        Some(ListenerEvent::Accepted(900))
    );
    let reply = match bureau.users_mut().offer() {
        Offer::Hello(id, bytes) => {
            assert!(bureau.add(id, Some(bytes.len())));
            bytes
        }
        Offer::Reject(bytes) => bytes,
    };
    assert_eq!(
        reply,
        vec![0x68, 0x65, 0x6C, 0x6C, 0x6F, 0x00, 0x00, 0x00, 0x00, 0x01, 0x00, 0x00, 0x00, 0x01]
    );
    assert_eq!(bureau.ids(), vec![1]);
}

#[test]
fn texts_that_fit() {
    assert!(packets::fits(""));
    assert!(packets::fits("hello"));
    assert_eq!(packets::MAX_TEXT, 1 << 28);
}

#[test]
fn add_tells_everyone_the_count() {
    let mut bureau = Bureau::new(4000, config(3));
    assert!(bureau.add(1, Some(14)));
    assert!(bureau.add(2, Some(14)));
    assert_eq!(
        outbox(&mut bureau, 1),
        vec![packets::user_count(1), packets::user_count(2)]
    );
    assert_eq!(outbox(&mut bureau, 2), vec![packets::user_count(2)]);
    // a client that is turned away changes nothing
    assert!(!bureau.add(3, Some(5)));
    assert!(!bureau.add(2, Some(14)));
    assert!(outbox(&mut bureau, 1).is_empty());
    assert_eq!(bureau.user_count(), 2);
}

#[test]
fn full_bureau_rejects() {
    let mut bureau = Bureau::new(4000, config(1));
    assert!(bureau.add(1, Some(14)));
    assert_eq!(bureau.users_mut().offer(), Offer::Reject(b"reject\0\0\0\0\0\0\0\0".to_vec()));
}

#[test]
fn new_user_promotes_a_master_and_counts() {
    let mut bureau = bureau_of(2);
    let master = bureau.new_user().unwrap();
    let other = 3 - master;
    assert_eq!(
        outbox(&mut bureau, master),
        vec![packets::set_master(master), packets::user_count(2)]
    );
    assert_eq!(outbox(&mut bureau, other), vec![packets::user_count(2)]);
    assert_eq!(bureau.new_user(), Some(master));
    assert_eq!(outbox(&mut bureau, master), vec![packets::user_count(2)]);
}

#[test]
fn state_change_is_a_no_op() {
    let mut bureau = bureau_of(2);
    assert!(bureau.handle_event(1, UserEvent::StateChange, None).is_empty());
    assert!(outbox(&mut bureau, 1).is_empty());
    assert!(outbox(&mut bureau, 2).is_empty());
}

#[test]
fn position_update_reaches_a_user_that_has_just_entered() {
    let mut bureau = bureau_of(2);
    let pos = Vector3::new(150 * ONE, 0, 0);
    assert_eq!(
        bureau.handle_event(2, UserEvent::PositionUpdate(pos), None),
        vec![AuraChange::Enter(1)]
    );
    assert_eq!(
        outbox(&mut bureau, 1),
        vec![
            packets::user_joined(1, 2, "", ""),
            packets::character(1, 2, ""),
            ByteWriter::position_update(2, &pos).bytes,
        ]
    );
    assert_eq!(
        outbox(&mut bureau, 2),
        vec![packets::user_joined(2, 1, "", ""), packets::character(2, 1, "")]
    );
}

#[test]
fn position_update_does_not_reach_a_user_that_has_just_left() {
    let mut bureau = bureau_of(2);
    bureau.update_aura(1);
    drain(&mut bureau);
    let pos = Vector3::new(250 * ONE, 0, 0);
    assert!(bureau.users_mut().set_pos(2, pos));
    drain(&mut bureau);
    assert_eq!(bureau.position_update(2, pos), vec![AuraChange::Leave(1)]);
    assert_eq!(outbox(&mut bureau, 1), vec![packets::user_left(1, 2)]);
    assert_eq!(outbox(&mut bureau, 2), vec![packets::user_left(2, 1)]);
}

#[test]
fn transform_update_goes_to_the_aura() {
    let mut bureau = bureau_of(3);
    assert!(bureau.users_mut().set_pos(3, Vector3::new(1000 * ONE, 0, 0)));
    bureau.update_aura(1);
    drain(&mut bureau);
    let rot = Mat3 { data: [1, 2, 3, 4, 5, 6, 7, 8, 9] };
    let pos = Vector3::new(1, 0, 0);
    assert!(bureau.handle_event(1, UserEvent::TransformUpdate(rot, pos), None).is_empty());
    assert_eq!(outbox(&mut bureau, 2), vec![packets::transform(1, &rot, &pos)]);
    assert!(outbox(&mut bureau, 1).is_empty());
    assert!(outbox(&mut bureau, 3).is_empty());
}

#[test]
fn chat_goes_to_the_others_behind_the_name() {
    let mut bureau = bureau_of(3);
    name(&mut bureau, 1, "Alice");
    bureau.handle_event(1, UserEvent::ChatSend("hello".to_string()), None);
    assert!(outbox(&mut bureau, 1).is_empty());
    assert_eq!(outbox(&mut bureau, 2), vec![chat(1, "Alice: hello")]);
    assert_eq!(outbox(&mut bureau, 3), vec![chat(1, "Alice: hello")]);
}

#[test]
fn chat_with_an_override() {
    let mut bureau = bureau_of(2);
    name(&mut bureau, 1, "Alice");
    bureau.chat_send(1, "hello".to_string(), Some("censored".to_string()));
    assert_eq!(outbox(&mut bureau, 2), vec![chat(1, "Alice: censored")]);
}

#[test]
fn chat_with_an_empty_override_is_cancelled() {
    let mut bureau = bureau_of(3);
    name(&mut bureau, 1, "Alice");
    bureau.handle_event(1, UserEvent::ChatSend("hello".to_string()), Some(String::new()));
    for id in 1..=3 {
        assert!(outbox(&mut bureau, id).is_empty());
    }
}

#[test]
fn chat_of_an_absent_user_is_dropped() {
    let mut bureau = bureau_of(2);
    bureau.chat_send(9, "hello".to_string(), None);
    assert!(outbox(&mut bureau, 1).is_empty());
    assert!(outbox(&mut bureau, 2).is_empty());
}

#[test]
fn character_name_and_avatar_go_to_the_aura() {
    let mut bureau = bureau_of(3);
    assert!(bureau.users_mut().set_pos(3, Vector3::new(1000 * ONE, 0, 0)));
    bureau.update_aura(1);
    drain(&mut bureau);
    bureau.handle_event(1, UserEvent::CharacterUpdate("blob".to_string()), None);
    bureau.handle_event(1, UserEvent::NameChange("Al".to_string()), None);
    bureau.handle_event(1, UserEvent::AvatarChange("avtwrl/z.wrl".to_string()), None);
    assert_eq!(
        outbox(&mut bureau, 2),
        vec![
            relay(1, MsgCommon::CharacterUpdate, "blob"),
            relay(1, MsgCommon::NameChange, "Al"),
            relay(1, MsgCommon::AvatarChange, "avtwrl/z.wrl"),
        ]
    );
    assert!(outbox(&mut bureau, 1).is_empty());
    assert!(outbox(&mut bureau, 3).is_empty());
}

#[test]
fn private_chat_filter() {
    let mut bureau = bureau_of(5);
    name(&mut bureau, 3, "Alice");
    bureau.handle_event(3, UserEvent::PrivateChat(5, "Alice: hi".to_string()), None);
    let mut content = 3i32.to_be_bytes().to_vec();
    content.extend(b"Alice: hi\0");
    assert_eq!(
        outbox(&mut bureau, 5),
        vec![ByteWriter::message_common(
            3,
            3,
            MsgCommon::PrivateChat,
            Strategy::SpecificClient,
            &content
        )
        .bytes]
    );
    for id in 1..=4 {
        assert!(outbox(&mut bureau, id).is_empty());
    }
    bureau.handle_event(3, UserEvent::PrivateChat(5, "onlyword".to_string()), None);
    bureau.handle_event(3, UserEvent::PrivateChat(5, "Alice: ".to_string()), None);
    for id in 1..=5 {
        assert!(outbox(&mut bureau, id).is_empty());
    }
}

#[test]
fn private_chat_takes_the_name_from_the_bureau() {
    let mut bureau = bureau_of(2);
    name(&mut bureau, 1, "Alice");
    bureau.private_chat(1, 2, "Mallory: hi".to_string(), None);
    assert_eq!(outbox(&mut bureau, 2), vec![packets::private_chat(1, "Alice: hi")]);
}

#[test]
fn private_chat_special_tokens_go_out_as_they_are() {
    for token in ["%%REQ", "%%RINGING", "%%REJECT", "%%ACCEPT", "%%OK", "%%BUSY", "%%END"] {
        assert!(Bureau::is_special(token));
        assert_eq!(Bureau::private_chat_query(token), None);
        let mut bureau = bureau_of(2);
        name(&mut bureau, 1, "Alice");
        bureau.private_chat(1, 2, token.to_string(), Some(String::new()));
        assert_eq!(outbox(&mut bureau, 2), vec![packets::private_chat(1, token)]);
    }
    for other in ["%%req", "%%REQ ", "%%", "", "REQ", "%%ENDS"] {
        assert!(!Bureau::is_special(other));
    }
}

#[test]
fn private_chat_query_is_what_follows_the_separator() {
    assert_eq!(Bureau::private_chat_query("Alice: hi"), Some("hi".to_string()));
    assert_eq!(Bureau::private_chat_query("a: b: c"), Some("b: c".to_string()));
    assert_eq!(Bureau::private_chat_query("Alice: "), None);
    assert_eq!(Bureau::private_chat_query("onlyword"), None);
}

#[test]
fn private_chat_with_an_override() {
    let mut bureau = bureau_of(2);
    name(&mut bureau, 1, "Alice");
    bureau.private_chat(1, 2, "Alice: hi".to_string(), Some("bye".to_string()));
    assert_eq!(outbox(&mut bureau, 2), vec![packets::private_chat(1, "Alice: bye")]);
    bureau.private_chat(1, 2, "Alice: hi".to_string(), Some(String::new()));
    assert!(outbox(&mut bureau, 2).is_empty());
}

#[test]
fn private_chat_to_an_unknown_receiver_is_dropped() {
    let mut bureau = bureau_of(2);
    name(&mut bureau, 1, "Alice");
    bureau.private_chat(1, 9, "Alice: hi".to_string(), None);
    assert!(outbox(&mut bureau, 1).is_empty());
    assert!(outbox(&mut bureau, 2).is_empty());
}

/// The users that got a packet of an application-specific call, and the
/// packet.
fn appl(bureau: &mut Bureau, id: i32, strategy: Strategy, id2: i32) -> Vec<i32> {
    let packet = packets::appl_specific(id, id2, strategy, "ping", "", 0);
    bureau.handle_event(
        id,
        UserEvent::ApplSpecific(strategy, id2, "ping".to_string(), String::new(), 0),
        None,
    );
    let mut got = Vec::new();
    let mut ids = bureau.ids();
    ids.sort();
    for user in ids {
        let out = outbox(bureau, user);
        for p in &out {
            if *p == packet {
                got.push(user);
            }
        }
        assert!(out.iter().all(|p| *p == packet || *p == packets::set_master(user)));
    }
    got
}

/// Users 1 to 4; 1 and 2 are in each other's aura, 3 and 4 are far away.
fn appl_bureau() -> Bureau {
    let mut bureau = bureau_of(4);
    assert!(bureau.users_mut().set_pos(3, Vector3::new(1000 * ONE, 0, 0)));
    assert!(bureau.users_mut().set_pos(4, Vector3::new(0, 1000 * ONE, 0)));
    bureau.update_aura(1);
    drain(&mut bureau);
    bureau
}

#[test]
fn appl_specific_to_the_master() {
    let mut bureau = appl_bureau();
    let master = bureau.users_mut().master().unwrap();
    drain(&mut bureau);
    for sender in 1..=4 {
        assert_eq!(appl(&mut bureau, sender, Strategy::SpecificClient, BROADCAST_ID), vec![master]);
    }
}

#[test]
fn appl_specific_promotes_a_master_where_there_is_none() {
    let mut bureau = appl_bureau();
    let got = appl(&mut bureau, 2, Strategy::SpecificClient, BROADCAST_ID);
    assert_eq!(got.len(), 1);
    assert_eq!(bureau.users_mut().master(), Some(got[0]));
}

#[test]
fn appl_specific_to_no_one_in_particular() {
    let mut bureau = appl_bureau();
    assert_eq!(BROADCAST_ID, -9999);
    for strategy in [Strategy::AuraClients, Strategy::AllClients, Strategy::Unknown5] {
        assert_eq!(appl(&mut bureau, 1, strategy, BROADCAST_ID), vec![1, 2, 3, 4]);
    }
    for strategy in [
        Strategy::AuraClientsExceptSender,
        Strategy::AllClientsExceptSender,
        Strategy::Unknown6,
    ] {
        assert_eq!(appl(&mut bureau, 1, strategy, BROADCAST_ID), vec![2, 3, 4]);
    }
    assert!(appl(&mut bureau, 1, Strategy::Invalid, BROADCAST_ID).is_empty());
}

#[test]
fn appl_specific_to_a_receiver() {
    let mut bureau = appl_bureau();
    assert_eq!(appl(&mut bureau, 1, Strategy::AuraClients, 3), vec![1, 2]);
    assert_eq!(appl(&mut bureau, 3, Strategy::AuraClients, 1), vec![3]);
    assert_eq!(appl(&mut bureau, 1, Strategy::AuraClientsExceptSender, 3), vec![2]);
    assert!(appl(&mut bureau, 3, Strategy::AuraClientsExceptSender, 1).is_empty());
    assert_eq!(appl(&mut bureau, 1, Strategy::SpecificClient, 3), vec![3]);
    assert_eq!(appl(&mut bureau, 1, Strategy::SpecificClient, 1), vec![1]);
    assert!(appl(&mut bureau, 1, Strategy::SpecificClient, 9).is_empty());
    assert_eq!(appl(&mut bureau, 1, Strategy::AllClients, 3), vec![1, 2, 3, 4]);
    assert_eq!(appl(&mut bureau, 1, Strategy::AllClientsExceptSender, 3), vec![2, 3, 4]);
    assert!(appl(&mut bureau, 1, Strategy::Unknown5, 3).is_empty());
    assert!(appl(&mut bureau, 1, Strategy::Unknown6, 3).is_empty());
    assert!(appl(&mut bureau, 1, Strategy::Invalid, 3).is_empty());
}

#[test]
fn script_actions() {
    let mut bureau = bureau_of(2);
    let pos = Vector3::new(1, 2, 3);
    let rot = Mat3 { data: [3; 9] };
    assert!(bureau.apply(ScriptAction::SetPos(1, pos)));
    assert!(bureau.apply(ScriptAction::SetRot(1, rot)));
    assert!(bureau.apply(ScriptAction::SendMsg(1, "hi".to_string())));
    assert!(bureau.apply(ScriptAction::SendPacket(1, vec![1, 2, 3])));
    assert_eq!(
        outbox(&mut bureau, 1),
        vec![
            ByteWriter::position_update(1, &pos).bytes,
            packets::transform(1, &rot, &pos),
            chat(1, "hi"),
            vec![1, 2, 3],
        ]
    );
    assert!(outbox(&mut bureau, 2).is_empty());
    assert!(bureau.apply(ScriptAction::Disconnect(1)));
    assert!(!bureau.users().is_connected(1));
    assert_eq!(bureau.user_count(), 2);
}

#[test]
fn script_actions_on_a_stale_id() {
    let mut bureau = bureau_of(1);
    assert!(!bureau.apply(ScriptAction::SetPos(7, Vector3::new(1, 2, 3))));
    assert!(!bureau.apply(ScriptAction::SetRot(7, Mat3::new())));
    assert!(!bureau.apply(ScriptAction::SendMsg(7, "hi".to_string())));
    assert!(!bureau.apply(ScriptAction::SendPacket(7, vec![1])));
    assert!(!bureau.apply(ScriptAction::Disconnect(7)));
    assert!(outbox(&mut bureau, 1).is_empty());
    assert!(bureau.users().is_connected(1));
}

#[test]
fn sweep_removes_who_is_gone_and_counts() {
    let mut bureau = bureau_of(4);
    bureau.update_aura(1);
    drain(&mut bureau);
    assert!(bureau.sweep().is_empty());
    for id in 1..=4 {
        assert!(outbox(&mut bureau, id).is_empty());
    }
    assert!(bureau.users_mut().mark_disconnected(1));
    assert!(bureau.users_mut().mark_disconnected(4));
    let mut removed = bureau.sweep();
    removed.sort();
    assert_eq!(removed, vec![1, 4]);
    assert_eq!(bureau.user_count(), 2);
    for id in [2, 3] {
        assert_eq!(
            outbox(&mut bureau, id),
            vec![packets::user_left(id, 1), packets::user_count(2)]
        );
        assert!(bureau.users().get(id).unwrap().aura().is_empty());
    }
    assert!(bureau.sweep().is_empty());
}

#[test]
fn sweep_after_a_failed_read() {
    let mut bureau = bureau_of(2);
    assert_eq!(bureau.users_mut().poll(2, ReadOutcome::Failed), Polled::Idle);
    assert_eq!(bureau.sweep(), vec![2]);
    assert_eq!(outbox(&mut bureau, 1), vec![packets::user_count(1)]);
    assert_eq!(bureau.ids(), vec![1]);
}
