use vscp::math::{Mat3, Vector3};
use vscp::packets;
use vscp::protocol::ByteWriter;
use vscp::user::{Polled, ReadOutcome, UserEvent};
use vscp::user_list::{Offer, UserList};

/// Admits the next client as a bureau does after a full write of the
/// greeting.
fn join(list: &mut UserList) -> Option<i32> {
    match list.offer() {
        Offer::Hello(id, bytes) => {
            assert_eq!(bytes, packets::hello(id));
            assert!(list.add(id, Some(bytes.len())));
            Some(id)
        }
        Offer::Reject(bytes) => {
            assert_eq!(bytes, packets::reject());
            None
        }
    }
}

fn outbox(list: &mut UserList, id: i32) -> Vec<Vec<u8>> {
    list.take_outbox(id)
}

fn sorted(mut ids: Vec<i32>) -> Vec<i32> {
    ids.sort();
    ids
}

#[test]
fn new_list_is_empty() {
    let mut list = UserList::new(255);
    assert_eq!(list.len(), 0);
    assert_eq!(list.max_users(), 255);
    assert!(list.ids().is_empty());
    assert!(!list.contains(1));
    assert!(list.get(1).is_none());
    assert_eq!(list.master(), None);
    assert_eq!(list.wants(1), None);
}

#[test]
fn first_client_gets_id_one() {
    let mut list = UserList::new(255);
    match list.offer() {
        Offer::Hello(id, bytes) => {
            assert_eq!(id, 1);
            assert_eq!(
                bytes,
                vec![0x68, 0x65, 0x6C, 0x6C, 0x6F, 0x00, 0x00, 0x00, 0x00, 0x01, 0x00, 0x00, 0x00, 0x01]
            );
        }
        Offer::Reject(_) => panic!("an empty list has a free id"),
    }
}

#[test]
fn ids_are_issued_in_a_circle() {
    let mut list = UserList::new(3);
    assert_eq!(join(&mut list), Some(1));
    assert_eq!(join(&mut list), Some(2));
    list.disconnect(1);
    // the search goes on after the id that was issued last
    assert_eq!(join(&mut list), Some(3));
    assert_eq!(join(&mut list), Some(1));
    assert_eq!(join(&mut list), None);
    list.disconnect(2);
    assert_eq!(join(&mut list), Some(2));
    assert_eq!(join(&mut list), None);
    assert_eq!(list.len(), 3);
}

#[test]
fn ids_are_distinct_and_in_range() {
    let mut list = UserList::new(10);
    let mut seen = Vec::new();
    for round in 0..40 {
        match join(&mut list) {
            Some(id) => {
                assert!((1..=10).contains(&id));
                assert!(!seen.contains(&id));
                seen.push(id);
            }
            None => assert_eq!(seen.len(), 10),
        }
        if round % 3 == 2 {
            let gone = seen.remove(0);
            list.disconnect(gone);
            assert!(!list.contains(gone));
        }
        assert_eq!(list.len(), seen.len());
        assert_eq!(sorted(list.ids()), sorted(seen.clone()));
    }
}

#[test]
fn an_id_is_free_while_the_list_is_not_full() {
    let mut list = UserList::new(5);
    for _ in 0..5 {
        assert!(list.len() < 5);
        assert!(join(&mut list).is_some());
    }
    assert_eq!(join(&mut list), None);
    for gone in [3, 5, 1] {
        list.disconnect(gone);
        assert_eq!(join(&mut list), Some(gone));
        assert_eq!(join(&mut list), None);
    }
}

#[test]
fn single_slot() {
    let mut list = UserList::new(1);
    assert_eq!(join(&mut list), Some(1));
    assert_eq!(join(&mut list), None);
    assert_eq!(join(&mut list), None);
    list.disconnect(1);
    assert_eq!(join(&mut list), Some(1));
    assert_eq!(list.master(), Some(1));
}

#[test]
fn short_write_turns_the_client_away() {
    let mut list = UserList::new(4);
    let id = match list.offer() {
        Offer::Hello(id, _) => id,
        Offer::Reject(_) => panic!(),
    };
    assert!(!list.add(id, Some(13)));
    assert!(!list.add(id, Some(0)));
    assert!(!list.contains(id));
    assert_eq!(list.len(), 0);
    // the id stays reserved: the next client gets the one after it
    assert_eq!(join(&mut list), Some(2));
}

#[test]
fn failed_write_still_admits() {
    let mut list = UserList::new(4);
    let id = match list.offer() {
        Offer::Hello(id, _) => id,
        Offer::Reject(_) => panic!(),
    };
    assert!(list.add(id, None));
    assert!(list.contains(id));
}

#[test]
fn add_refuses_ids_out_of_range_or_in_use() {
    let mut list = UserList::new(4);
    assert!(!list.add(0, Some(14)));
    assert!(!list.add(5, Some(14)));
    assert!(!list.add(-1, Some(14)));
    assert!(list.add(4, Some(14)));
    assert!(!list.add(4, Some(14)));
    assert_eq!(list.len(), 1);
    assert_eq!(list.get(4).map(|u| u.id()), Some(4));
}

#[test]
fn master_is_promoted_once_and_stays() {
    let mut list = UserList::new(8);
    for _ in 0..4 {
        join(&mut list);
    }
    let master = list.master().expect("a list with users has a master");
    assert!(list.contains(master));
    assert_eq!(outbox(&mut list, master), vec![packets::set_master(master)]);
    for _ in 0..5 {
        assert_eq!(list.master(), Some(master));
    }
    assert!(outbox(&mut list, master).is_empty());
    for id in list.ids() {
        if id != master {
            assert!(outbox(&mut list, id).is_empty());
        }
    }
}

#[test]
fn master_is_replaced_after_it_left() {
    let mut list = UserList::new(8);
    for _ in 0..3 {
        join(&mut list);
    }
    let first = list.master().unwrap();
    list.disconnect(first);
    let second = list.master().unwrap();
    assert_ne!(first, second);
    assert!(list.contains(second));
    assert_eq!(outbox(&mut list, second), vec![packets::set_master(second)]);
    assert_eq!(list.master(), Some(second));
    list.disconnect(second);
    let third = list.master().unwrap();
    list.disconnect(third);
    assert_eq!(list.master(), None);
}

#[test]
fn audiences() {
    let mut list = UserList::new(8);
    for _ in 0..4 {
        join(&mut list);
    }
    assert_eq!(sorted(list.for_others(2)), vec![1, 3, 4]);
    assert_eq!(sorted(list.for_others(9)), vec![1, 2, 3, 4]);
    assert!(list.for_aura(2).is_empty());
    assert!(list.for_aura(9).is_empty());
    list.update_aura(2, 10);
    assert_eq!(sorted(list.for_aura(2)), vec![1, 3, 4]);
    assert_eq!(sorted(list.for_aura(1)), vec![2]);
}

#[test]
fn fan_out() {
    let mut list = UserList::new(8);
    for _ in 0..4 {
        join(&mut list);
    }
    list.update_aura(1, 0);
    for id in 1..=4 {
        let _ = outbox(&mut list, id);
    }
    // 1 is now linked with 2, 3 and 4, which are not linked with each other
    list.send_all(&[1]);
    list.send_others(2, &[2]);
    list.send_aura(2, &[3]);
    list.send_aura(1, &[4]);
    assert!(list.send_to(3, &[5]));
    assert!(!list.send_to(7, &[5]));
    list.send_others(9, &[6]);
    list.send_aura(9, &[7]);
    assert_eq!(outbox(&mut list, 1), vec![vec![1], vec![2], vec![3], vec![6]]);
    assert_eq!(outbox(&mut list, 2), vec![vec![1], vec![4], vec![6]]);
    assert_eq!(outbox(&mut list, 3), vec![vec![1], vec![2], vec![4], vec![5], vec![6]]);
    assert_eq!(outbox(&mut list, 4), vec![vec![1], vec![2], vec![4], vec![6]]);
}

#[test]
fn user_count_goes_to_everyone() {
    let mut list = UserList::new(8);
    for _ in 0..3 {
        join(&mut list);
    }
    list.send_user_count();
    for id in 1..=3 {
        assert_eq!(outbox(&mut list, id), vec![packets::user_count(3)]);
    }
    let empty = &mut UserList::new(2);
    empty.send_user_count();
    assert_eq!(empty.len(), 0);
}

#[test]
fn disconnect_tells_the_aura() {
    let mut list = UserList::new(8);
    for _ in 0..3 {
        join(&mut list);
    }
    assert!(list.set_pos(3, Vector3::new(1000, 0, 0)));
    list.update_aura(1, 10);
    for id in 1..=3 {
        let _ = outbox(&mut list, id);
    }
    // 1 and 2 are linked, 3 is far away
    list.disconnect(1);
    assert!(!list.contains(1));
    assert_eq!(list.len(), 2);
    assert_eq!(outbox(&mut list, 2), vec![packets::user_left(2, 1)]);
    assert!(outbox(&mut list, 3).is_empty());
    assert!(list.get(2).unwrap().aura().is_empty());
}

#[test]
fn disconnect_twice_is_a_no_op() {
    let mut list = UserList::new(8);
    for _ in 0..3 {
        join(&mut list);
    }
    list.update_aura(1, 10);
    for id in 1..=3 {
        let _ = outbox(&mut list, id);
    }
    list.disconnect(1);
    assert_eq!(outbox(&mut list, 2).len(), 1);
    assert_eq!(outbox(&mut list, 3).len(), 1);
    list.disconnect(1);
    assert_eq!(list.len(), 2);
    assert!(outbox(&mut list, 2).is_empty());
    assert!(outbox(&mut list, 3).is_empty());
    assert_eq!(sorted(list.ids()), vec![2, 3]);
    list.disconnect(77);
    assert_eq!(list.len(), 2);
}

#[test]
fn actions_on_a_stale_id_are_refused() {
    let mut list = UserList::new(8);
    join(&mut list);
    assert!(!list.set_pos(5, Vector3::new(1, 1, 1)));
    assert!(!list.set_rot(5, Mat3::new()));
    assert!(!list.send_msg(5, "x"));
    assert!(!list.send_to(5, &[1]));
    assert!(!list.mark_disconnected(5));
    assert!(!list.is_connected(5));
    assert!(list.take_outbox(5).is_empty());
    assert_eq!(list.poll(5, ReadOutcome::Failed), Polled::Idle);
    assert!(outbox(&mut list, 1).is_empty());
    assert!(list.is_connected(1));
}

#[test]
fn actions_by_id() {
    let mut list = UserList::new(8);
    join(&mut list);
    let pos = Vector3::new(5, 6, 7);
    let rot = Mat3 { data: [9; 9] };
    assert!(list.set_pos(1, pos));
    assert!(list.set_rot(1, rot));
    assert!(list.send_msg(1, "hi"));
    assert_eq!(*list.get(1).unwrap().pos(), pos);
    assert_eq!(*list.get(1).unwrap().rot(), rot);
    let mut expected = vec![
        ByteWriter::position_update(1, &pos).bytes,
        packets::transform(1, &rot, &pos),
    ];
    let mut user = vscp::user::User::new(1);
    user.send_msg("hi");
    expected.extend(user.take_outbox());
    assert_eq!(outbox(&mut list, 1), expected);
    assert!(list.mark_disconnected(1));
    assert!(!list.is_connected(1));
    assert!(list.contains(1));
}

#[test]
fn poll_goes_to_the_user() {
    let mut list = UserList::new(8);
    join(&mut list);
    assert_eq!(list.wants(1), Some(1));
    assert_eq!(list.poll(1, ReadOutcome::Data(vec![2])), Polled::Again);
    assert_eq!(list.wants(1), Some(26));
    let mut rest = vec![0u8; 12];
    rest.extend(1i32.to_be_bytes());
    rest.extend(2i32.to_be_bytes());
    rest.extend(3i32.to_be_bytes());
    rest.extend([1, 0]);
    assert_eq!(
        list.poll(1, ReadOutcome::Data(rest)),
        Polled::Event(UserEvent::PositionUpdate(Vector3::new(1, 2, 3)))
    );
    assert_eq!(list.poll(1, ReadOutcome::Failed), Polled::Idle);
    assert!(!list.is_connected(1));
}
