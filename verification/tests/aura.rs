use vscp::math::Vector3;
use vscp::packets;
use vscp::user_list::{AuraChange, UserList};

/// One unit of distance on the wire.
const ONE: i32 = 65535;

fn list_of(n: i32) -> UserList {
    let mut list = UserList::new(16);
    for id in 1..=n {
        assert!(list.add(id, Some(14)));
    }
    list
}

fn place(list: &mut UserList, id: i32, x: i32, y: i32, z: i32) {
    assert!(list.set_pos(id, Vector3::new(x, y, z)));
    let _ = list.take_outbox(id);
}

fn aura(list: &UserList, id: i32) -> Vec<i32> {
    let mut ids = list.get(id).unwrap().aura();
    ids.sort();
    ids
}

/// Every user is in the aura of exactly those users that are in its own.
fn assert_symmetric(list: &UserList) {
    let ids = list.ids();
    for a in &ids {
        for b in &ids {
            let a_has_b = list.get(*a).unwrap().check_aura(*b);
            let b_has_a = list.get(*b).unwrap().check_aura(*a);
            assert_eq!(a_has_b, b_has_a);
        }
        assert!(!list.get(*a).unwrap().check_aura(*a));
        for other in list.get(*a).unwrap().aura() {
            assert!(list.contains(other));
        }
    }
}

#[test]
fn aura_entry() {
    let mut list = list_of(2);
    place(&mut list, 1, 0, 0, 0);
    place(&mut list, 2, 150 * ONE, 0, 0);
    assert_eq!(list.update_aura(2, 200 * ONE), vec![AuraChange::Enter(1)]);
    assert_eq!(aura(&list, 1), vec![2]);
    assert_eq!(aura(&list, 2), vec![1]);
    assert_eq!(
        list.take_outbox(1),
        vec![packets::user_joined(1, 2, "", ""), packets::character(1, 2, "")]
    );
    assert_eq!(
        list.take_outbox(2),
        vec![packets::user_joined(2, 1, "", ""), packets::character(2, 1, "")]
    );
}

#[test]
fn aura_entry_carries_avatar_name_and_data() {
    let mut list = list_of(2);
    let mut hello = vec![0u8; 8];
    hello.extend(0u32.to_be_bytes());
    let body = b"Alice\0avtwrl/a.wrl\0";
    hello.extend((body.len() as u32).to_be_bytes());
    let _ = list.poll(1, vscp::user::ReadOutcome::Data(vec![0]));
    let _ = list.poll(1, vscp::user::ReadOutcome::Data(hello));
    let _ = list.poll(1, vscp::user::ReadOutcome::Data(body.to_vec()));
    let _ = list.take_outbox(1);
    list.update_aura(1, 1);
    assert_eq!(
        list.take_outbox(2),
        vec![
            packets::user_joined(2, 1, "avtwrl/a.wrl", "Alice"),
            packets::character(2, 1, ""),
        ]
    );
}

#[test]
fn aura_exit() {
    let mut list = list_of(2);
    place(&mut list, 1, 0, 0, 0);
    place(&mut list, 2, 150 * ONE, 0, 0);
    list.update_aura(2, 200 * ONE);
    let _ = list.take_outbox(1);
    let _ = list.take_outbox(2);
    place(&mut list, 2, 250 * ONE, 0, 0);
    assert_eq!(list.update_aura(2, 200 * ONE), vec![AuraChange::Leave(1)]);
    assert!(aura(&list, 1).is_empty());
    assert!(aura(&list, 2).is_empty());
    assert_eq!(list.take_outbox(1), vec![packets::user_left(1, 2)]);
    assert_eq!(list.take_outbox(2), vec![packets::user_left(2, 1)]);
}

#[test]
fn nothing_is_sent_while_nothing_changes() {
    let mut list = list_of(3);
    place(&mut list, 3, 1000 * ONE, 0, 0);
    list.update_aura(1, 200 * ONE);
    for id in 1..=3 {
        let _ = list.take_outbox(id);
    }
    for _ in 0..3 {
        assert!(list.update_aura(1, 200 * ONE).is_empty());
        assert!(list.update_aura(2, 200 * ONE).is_empty());
        assert!(list.update_aura(3, 200 * ONE).is_empty());
        for id in 1..=3 {
            assert!(list.take_outbox(id).is_empty());
        }
    }
    assert_eq!(aura(&list, 1), vec![2]);
    assert!(aura(&list, 3).is_empty());
}

#[test]
fn a_point_on_the_radius_is_inside() {
    let mut list = list_of(2);
    place(&mut list, 1, 0, 0, 0);
    place(&mut list, 2, 3 * ONE, 4 * ONE, 0);
    list.update_aura(1, 5 * ONE);
    assert_eq!(aura(&list, 1), vec![2]);
    // one step further out and the pair parts
    place(&mut list, 2, 3 * ONE, 4 * ONE, 1);
    list.update_aura(1, 5 * ONE);
    assert!(aura(&list, 1).is_empty());
    // and one step short of the radius it is inside again
    place(&mut list, 2, 3 * ONE, 4 * ONE - 1, 0);
    list.update_aura(1, 5 * ONE);
    assert_eq!(aura(&list, 1), vec![2]);
}

#[test]
fn radius_zero_links_users_at_the_same_point_only() {
    let mut list = list_of(3);
    place(&mut list, 3, 0, 0, 1);
    list.update_aura(1, 0);
    assert_eq!(aura(&list, 1), vec![2]);
    assert!(aura(&list, 3).is_empty());
}

#[test]
fn a_negative_radius_counts_by_its_square() {
    let mut list = list_of(2);
    place(&mut list, 2, 3, 0, 0);
    list.update_aura(1, -3);
    assert_eq!(aura(&list, 1), vec![2]);
}

#[test]
fn the_widest_gap_does_not_overflow() {
    let mut list = list_of(2);
    place(&mut list, 1, i32::MIN, i32::MIN, i32::MIN);
    place(&mut list, 2, i32::MAX, i32::MAX, i32::MAX);
    list.update_aura(1, i32::MAX);
    assert!(aura(&list, 1).is_empty());
    place(&mut list, 2, i32::MIN, i32::MIN, i32::MAX);
    list.update_aura(1, i32::MIN);
    assert!(aura(&list, 1).is_empty());
    place(&mut list, 2, i32::MIN, i32::MIN, -1);
    list.update_aura(1, i32::MIN);
    assert_eq!(aura(&list, 1), vec![2]);
}

#[test]
fn update_of_an_absent_user_changes_nothing() {
    let mut list = list_of(2);
    assert!(list.update_aura(9, 100).is_empty());
    assert!(aura(&list, 1).is_empty());
    assert!(list.take_outbox(1).is_empty());
    assert_eq!(list.len(), 2);
}

#[test]
fn only_the_pairs_of_the_moving_user_change() {
    let mut list = list_of(3);
    // all three at the origin, but only 1 has been brought up to date
    list.update_aura(1, 10);
    assert_eq!(aura(&list, 1), vec![2, 3]);
    assert_eq!(aura(&list, 2), vec![1]);
    assert_eq!(aura(&list, 3), vec![1]);
    assert_symmetric(&list);
    list.update_aura(2, 10);
    assert_eq!(aura(&list, 2), vec![1, 3]);
    assert_eq!(aura(&list, 3), vec![1, 2]);
    assert_symmetric(&list);
}

#[test]
fn the_moving_user_hears_of_every_change_once() {
    let mut list = list_of(5);
    let changes = list.update_aura(3, 10);
    assert_eq!(changes.len(), 4);
    let got = list.take_outbox(3);
    assert_eq!(got.len(), 8);
    // the packets come in the order of the changes
    for (i, change) in changes.iter().enumerate() {
        match change {
            AuraChange::Enter(other) => {
                assert_eq!(got[2 * i], packets::user_joined(3, *other, "", ""));
            }
            AuraChange::Leave(_) => panic!("nobody was there to leave"),
        }
    }
    for other in [1, 2, 4, 5] {
        let joined = packets::user_joined(3, other, "", "");
        let shown = packets::character(3, other, "");
        let at = got.iter().position(|p| *p == joined).expect("joined is sent");
        assert_eq!(got[at + 1], shown);
        assert_eq!(got.iter().filter(|p| **p == joined).count(), 1);
        assert_eq!(
            list.take_outbox(other),
            vec![packets::user_joined(other, 3, "", ""), packets::character(other, 3, "")]
        );
    }
    place(&mut list, 3, 100, 0, 0);
    let changes = list.update_aura(3, 10);
    let got = list.take_outbox(3);
    assert_eq!(got.len(), 4);
    for (i, change) in changes.iter().enumerate() {
        match change {
            AuraChange::Leave(other) => assert_eq!(got[i], packets::user_left(3, *other)),
            AuraChange::Enter(_) => panic!("nobody was there to enter"),
        }
    }
    for other in [1, 2, 4, 5] {
        assert_eq!(got.iter().filter(|p| **p == packets::user_left(3, other)).count(), 1);
        assert_eq!(list.take_outbox(other), vec![packets::user_left(other, 3)]);
    }
}

#[test]
fn aura_stays_symmetric() {
    let mut list = list_of(6);
    let mut seed: u32 = 12345;
    let mut next = move || {
        seed = seed.wrapping_mul(1664525).wrapping_add(1013904223);
        (seed >> 16) as i32
    };
    for step in 0..300 {
        let id = next().rem_euclid(7);
        match step % 5 {
            0 | 1 | 2 => {
                if list.contains(id) {
                    place(&mut list, id, next() % 40, next() % 40, 0);
                    list.update_aura(id, 15);
                }
            }
            3 => list.disconnect(id),
            _ => {
                let _ = list.add(id, Some(14));
            }
        }
        assert_symmetric(&list);
    }
}
