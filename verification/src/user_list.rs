//! The users of one bureau: id allocation, the master role, the audiences
//! of a fan-out, and the aura that links users who are near each other.

use vstd::prelude::*;
use vstd::set_lib::*;
use crate::math::{Mat3, Vector3};
use crate::packets::{
    character, character_packet, hello, hello_bytes, reject, reject_bytes, set_master,
    set_master_packet, transform_packet, user_count, user_count_packet, user_joined,
    user_joined_packet, user_left, user_left_packet, MAX_TEXT,
};
use crate::protocol::position_update_bytes;
use crate::text::byte_len;
use crate::user::{
    chat_packet, need, packets_of, poll_step, Polled, PolledModel, ReadModel, ReadOutcome, User,
    UserModel,
};
use crate::user_map::{entries, UserMap};

verus! {

/// The number of bytes in a greeting or a rejection.
pub const GREETING_LEN: usize = 14;

/// The state of a user list, as plain values.
pub struct UserListModel {
    /// The connected users, each under its id.
    pub users: Map<i32, UserModel>,
    /// The id that was last made master, or -1.
    pub master_id: i32,
    /// The largest id that is ever issued.
    pub max_index: i32,
    /// The id that was issued last; the search for a free id starts after it.
    pub user_index: i32,
}

impl UserListModel {
    /// The ids in use.
    pub open spec fn ids(self) -> Set<i32> {
        self.users.dom()
    }

    /// Ids lie between 1 and `max_index`, every user is stored under its
    /// own id and is well formed, and auras link pairs of distinct
    /// connected users in both directions.
    pub open spec fn wf(self) -> bool {
        &&& 1 <= self.max_index
        &&& 0 <= self.user_index <= self.max_index
        &&& forall|id: i32| #[trigger]
            self.users.dom().contains(id) ==> 1 <= id <= self.max_index && self.users[id].id
                == id && self.users[id].wf()
        &&& forall|a: i32, b: i32|
            self.users.dom().contains(a) && #[trigger] self.users[a].aura.contains(b) ==> b != a
                && self.users.dom().contains(b) && self.users[b].aura.contains(a)
    }

    /// The list that `UserList::new` makes.
    pub open spec fn fresh(max_users: i32) -> UserListModel {
        UserListModel {
            users: Map::empty(),
            master_id: -1i32,
            max_index: max_users,
            user_index: 0,
        }
    }

    /// The audience *others*: every connected user but `id`.
    pub open spec fn others(self, id: i32) -> Set<i32> {
        self.ids().remove(id)
    }

    /// The audience *aura*: the connected users in the aura of `id`. It is
    /// empty where `id` is not connected.
    pub open spec fn aura_of(self, id: i32) -> Set<i32> {
        if self.ids().contains(id) {
            self.users[id].aura.intersect(self.ids())
        } else {
            Set::empty()
        }
    }

    /// This list with `users` in place of its users.
    pub open spec fn with_users(self, users: Map<i32, UserModel>) -> UserListModel {
        UserListModel { users: users, ..self }
    }
}

/// The users after `packet` has been queued for each of `targets`.
pub open spec fn delivered(users: Map<i32, UserModel>, targets: Set<i32>, packet: Seq<u8>) -> Map<
    i32,
    UserModel,
> {
    Map::new(
        |k: i32| users.dom().contains(k),
        |k: i32|
            if targets.contains(k) {
                users[k].sent(packet)
            } else {
                users[k]
            },
    )
}

/// The user `other` after it has been told that `id` left its aura.
pub open spec fn parted(other: UserModel, id: i32) -> UserModel {
    UserModel { aura: other.aura.remove(id), ..other }.sent(user_left_packet(other.id, id))
}

/// The list after the user `id` has been disconnected: every user in its
/// aura has lost it from its own aura and has been told so, and `id` is no
/// longer in the list. A list that does not hold `id` stays as it is.
pub open spec fn disconnect_model(l: UserListModel, id: i32) -> UserListModel {
    if !l.ids().contains(id) {
        l
    } else {
        l.with_users(
            Map::new(
                |k: i32| l.ids().contains(k) && k != id,
                |k: i32|
                    if l.users[id].aura.contains(k) {
                        parted(l.users[k], id)
                    } else {
                        l.users[k]
                    },
            ),
        )
    }
}

/// The `k`-th id that a search starting after `start` tries, among ids from
/// 1 to `max`: the ids follow each other in a circle.
pub open spec fn probe(start: int, max: int, k: int) -> int {
    (start + k) % max + 1
}

/// The first of the probes `k`, `k + 1`, ..., `max - 1` that is not in
/// `used`, if there is one.
pub open spec fn first_free(used: Set<i32>, start: int, max: int, k: int) -> Option<i32>
    decreases max - k,
{
    if k >= max {
        None
    } else if !used.contains(probe(start, max, k) as i32) {
        Some(probe(start, max, k) as i32)
    } else {
        first_free(used, start, max, k + 1)
    }
}

/// The id that the next client gets.
pub open spec fn next_free(l: UserListModel) -> Option<i32> {
    first_free(l.ids(), l.user_index as int, l.max_index as int, 0)
}

/// What a bureau answers to a client that has completed its handshake.
#[derive(Clone, Debug, PartialEq, Eq)]
pub enum Offer {
    /// The id that is reserved for the client and the greeting to write.
    Hello(i32, Vec<u8>),
    /// No id is free; the rejection to write.
    Reject(Vec<u8>),
}

/// The relation between a list before and after `master`, and what
/// `master` returned.
///
/// The cached master stays while it is connected. Otherwise some connected
/// user becomes master and is told so; there is none only in an empty list.
pub open spec fn master_step(before: UserListModel, after: UserListModel, r: Option<i32>) -> bool {
    if before.ids().contains(before.master_id) {
        r == Some(before.master_id) && after == before
    } else if before.ids() =~= Set::empty() {
        r is None && after == before
    } else {
        &&& r is Some
        &&& before.ids().contains(r->0)
        &&& after == (UserListModel {
            master_id: r->0,
            users: before.users.insert(
                r->0,
                before.users[r->0].sent(set_master_packet(before.users[r->0].id)),
            ),
            ..before
        })
    }
}

/// The users of one bureau.
pub struct UserList {
    users: UserMap,
    master_id: i32,
    max_index: i32,
    user_index: i32,
}

impl View for UserList {
    type V = UserListModel;

    closed spec fn view(&self) -> UserListModel {
        UserListModel {
            users: entries(self.users),
            master_id: self.master_id,
            max_index: self.max_index,
            user_index: self.user_index,
        }
    }
}

/// A probe lies between 1 and `max`.
pub proof fn lemma_probe_range(start: int, max: int, k: int)
    requires
        0 <= start,
        0 <= k,
        1 <= max,
    ensures
        1 <= probe(start, max, k) <= max,
{
}

/// What `first_free` returns is a probe that is free, every probe before it
/// is in use, and it returns nothing only where every probe is in use.
pub proof fn lemma_first_free(used: Set<i32>, start: int, max: int, k: int)
    requires
        0 <= start <= max <= i32::MAX,
        0 <= k,
        1 <= max,
    ensures
        first_free(used, start, max, k) matches Some(id) ==> 1 <= id <= max && !used.contains(id),
        first_free(used, start, max, k) is None ==> forall|j: int|
            k <= j < max ==> used.contains(#[trigger] probe(start, max, j) as i32),
    decreases max - k,
{
    if k < max {
        lemma_probe_range(start, max, k);
        if used.contains(probe(start, max, k) as i32) {
            lemma_first_free(used, start, max, k + 1);
        }
    }
}

/// Every id from 1 to `max` is one of the probes 0, ..., `max - 1`.
pub proof fn lemma_probe_covers(start: int, max: int, id: int)
    requires
        0 <= start <= max,
        1 <= id <= max,
    ensures
        exists|j: int| 0 <= j < max && #[trigger] probe(start, max, j) == id,
{
    let j = if id - 1 >= start {
        id - 1 - start
    } else {
        id - 1 - start + max
    };
    assert(0 <= j < max);
    assert(probe(start, max, j) == id) by {
        if id - 1 >= start {
            assert(start + j == id - 1);
            vstd::arithmetic::div_mod::lemma_small_mod((id - 1) as nat, max as nat);
        } else {
            assert(start + j == id - 1 + max);
            assert((id - 1 + max) % max == id - 1) by {
                vstd::arithmetic::div_mod::lemma_mod_add_multiples_vanish(id - 1, max);
                vstd::arithmetic::div_mod::lemma_small_mod((id - 1) as nat, max as nat);
            }
        }
    }
}

/// The ids from 1 to `max`.
pub open spec fn id_range(max: int) -> Set<i32> {
    Set::new(|id: i32| 1 <= id <= max)
}

/// There are `max` ids from 1 to `max`.
pub proof fn lemma_id_range(max: int)
    requires
        0 <= max <= i32::MAX,
    ensures
        id_range(max).finite(),
        id_range(max).len() == max,
    decreases max,
{
    if max == 0 {
        assert(id_range(0) =~= Set::empty());
    } else {
        lemma_id_range(max - 1);
        assert(id_range(max) =~= id_range(max - 1).insert(max as i32));
    }
}

/// A well-formed list holds finitely many users, and no more than there
/// are ids.
pub proof fn lemma_ids_finite(l: UserListModel)
    requires
        l.wf(),
    ensures
        l.ids().finite(),
        l.ids().len() <= l.max_index,
{
    lemma_id_range(l.max_index as int);
    assert(l.ids().subset_of(id_range(l.max_index as int)));
    lemma_len_subset(l.ids(), id_range(l.max_index as int));
}

/// While fewer users are connected than there are ids, an id is free for
/// the next client.
pub proof fn lemma_free_id_exists(l: UserListModel)
    requires
        l.wf(),
        l.ids().len() < l.max_index,
    ensures
        next_free(l) is Some,
{
    let max = l.max_index as int;
    let start = l.user_index as int;
    lemma_first_free(l.ids(), start, max, 0);
    if next_free(l) is None {
        assert forall|id: i32| id_range(max).contains(id) implies l.ids().contains(id) by {
            lemma_probe_covers(start, max, id as int);
            let j = choose|j: int| 0 <= j < max && #[trigger] probe(start, max, j) == id;
            assert(l.ids().contains(probe(start, max, j) as i32));
        }
        lemma_id_range(max);
        lemma_ids_finite(l);
        lemma_len_subset(id_range(max), l.ids());
    }
}

/// In a well-formed list, `a` is in the aura of `b` exactly when `b` is in
/// the aura of `a`.
pub proof fn lemma_aura_symmetric(l: UserListModel, a: i32, b: i32)
    requires
        l.wf(),
        l.ids().contains(a),
        l.ids().contains(b),
    ensures
        l.users[b].aura.contains(a) <==> l.users[a].aura.contains(b),
{
}

/// Once `master` has named a master, it names the same user again for as
/// long as that user stays connected, whatever else has changed.
pub proof fn lemma_master_stable(
    first: UserListModel,
    then: UserListModel,
    r1: Option<i32>,
    later: UserListModel,
    last: UserListModel,
    r2: Option<i32>,
)
    requires
        master_step(first, then, r1),
        r1 is Some,
        later.master_id == then.master_id,
        later.ids().contains(r1->0),
        master_step(later, last, r2),
    ensures
        r2 == r1,
        last == later,
{
}

impl UserList {
    /// An empty list that issues the ids from 1 to `max_users`.
    pub fn new(max_users: i32) -> (l: UserList)
        requires
            max_users >= 1,
        ensures
            l@ == UserListModel::fresh(max_users),
            l@.wf(),
    {
        UserList { users: UserMap::new(), master_id: -1, max_index: max_users, user_index: 0 }
    }

    /// The number of connected users.
    pub fn len(&self) -> (n: usize)
        requires
            self@.wf(),
        ensures
            n == self@.ids().len(),
            n <= self@.max_index,
    {
        proof {
            lemma_ids_finite(self@);
        }
        self.users.len()
    }

    /// The largest id that this list issues.
    pub fn max_users(&self) -> (n: i32)
        ensures
            n == self@.max_index,
    {
        self.max_index
    }

    /// The ids in use, each once, in no particular order.
    pub fn ids(&self) -> (ks: Vec<i32>)
        ensures
            ks@.no_duplicates(),
            ks@.to_set() == self@.ids(),
    {
        self.users.keys()
    }

    /// Whether a user with this id is connected.
    pub fn contains(&self, id: i32) -> (b: bool)
        ensures
            b == self@.ids().contains(id),
    {
        self.users.contains_key(id)
    }

    /// The user with this id.
    pub fn get(&self, id: i32) -> (r: Option<&User>)
        ensures
            r is Some <==> self@.ids().contains(id),
            r is Some ==> r->0@ == self@.users[id],
    {
        self.users.get(id)
    }

    /// Picks the id for the next client: the first free one in the circle
    /// of ids, starting after the one that was issued last.
    fn next_id(&mut self) -> (r: Option<i32>)
        requires
            old(self)@.wf(),
        ensures
            r == next_free(old(self)@),
            final(self)@ == (UserListModel {
                user_index: if r is Some {
                    r->0
                } else {
                    old(self)@.user_index
                },
                ..old(self)@
            }),
            final(self)@.wf(),
            r matches Some(id) ==> 1 <= id <= old(self)@.max_index && !old(self)@.ids().contains(
                id,
            ),
    {
        let mut cursor: i32 = self.user_index;
        let mut k: i32 = 0;
        proof {
            lemma_first_free(self@.ids(), self@.user_index as int, self@.max_index as int, 0);
        }
        while k < self.max_index
            invariant
                *self == *old(self),
                self@.wf(),
                0 <= k <= self.max_index,
                0 <= cursor <= self.max_index,
                cursor as int % self.max_index as int == (self.user_index + k)
                    % self.max_index as int,
                first_free(self@.ids(), self@.user_index as int, self@.max_index as int, k as int)
                    == next_free(self@),
            decreases self.max_index - k,
        {
            cursor = cursor % self.max_index + 1;
            assert(cursor == probe(self.user_index as int, self.max_index as int, k as int));
            assert(cursor as int % self.max_index as int == (self.user_index + k + 1)
                % self.max_index as int) by {
                let m = self.max_index as int;
                let a = (self.user_index + k) as int;
                assert((a % m + 1) % m == (a + 1) % m) by {
                    vstd::arithmetic::div_mod::lemma_add_mod_noop(a, 1, m);
                    vstd::arithmetic::div_mod::lemma_mod_twice(a, m);
                    vstd::arithmetic::div_mod::lemma_add_mod_noop(a % m, 1, m);
                }
            }
            if !self.users.contains_key(cursor) {
                self.user_index = cursor;
                return Some(cursor);
            }
            k = k + 1;
        }
        None
    }

    /// Reserves an id for a client that has completed its handshake and
    /// says what to write to it: the greeting with that id, or the
    /// rejection where no id is free.
    pub fn offer(&mut self) -> (r: Offer)
        requires
            old(self)@.wf(),
        ensures
            final(self)@.wf(),
            match next_free(old(self)@) {
                Some(id) => r matches Offer::Hello(given, bytes) && given == id && bytes@
                    == hello_bytes(id) && final(self)@ == (UserListModel {
                    user_index: id,
                    ..old(self)@
                }) && 1 <= id <= old(self)@.max_index && !old(self)@.ids().contains(id),
                None => r matches Offer::Reject(bytes) && bytes@ == reject_bytes() && final(self)@
                    == old(self)@,
            },
    {
        match self.next_id() {
            Some(id) => Offer::Hello(id, hello(id)),
            None => Offer::Reject(reject()),
        }
    }

    /// Admits the client that was offered `id`, given how the write of its
    /// greeting went: `Some(n)` where `n` bytes were written, `None` where
    /// the write failed. A short write turns the client away; so does an id
    /// that is out of range or in use.
    pub fn add(&mut self, id: i32, written: Option<usize>) -> (added: bool)
        requires
            old(self)@.wf(),
        ensures
            added == (!(written matches Some(n) && n != GREETING_LEN) && 1 <= id <= old(self)@.max_index && !old(self)@.ids().contains(id)),
            final(self)@ == (UserListModel {
                users: if added {
                    old(self)@.users.insert(id, UserModel::fresh(id))
                } else {
                    old(self)@.users
                },
                ..old(self)@
            }),
            final(self)@.wf(),
    {
        match written {
            Some(n) => {
                if n != GREETING_LEN {
                    return false;
                }
            },
            None => {},
        }
        if id < 1 || id > self.max_index || self.users.contains_key(id) {
            return false;
        }
        let _ = self.users.insert(id, User::new(id));
        true
    }

    /// The master of the bureau. The user that was made master last stays
    /// master while it is connected; after that another user is promoted
    /// and is sent `SMsgSetMaster(1)`.
    pub fn master(&mut self) -> (r: Option<i32>)
        requires
            old(self)@.wf(),
        ensures
            master_step(old(self)@, final(self)@, r),
            final(self)@.wf(),
    {
        if self.users.contains_key(self.master_id) {
            return Some(self.master_id);
        }
        let ks = self.users.keys();
        if ks.len() == 0 {
            assert(self@.ids() =~= Set::empty()) by {
                assert forall|k: i32| !self@.ids().contains(k) by {
                    if self@.ids().contains(k) {
                        assert(ks@.to_set().contains(k));
                        assert(ks@.contains(k));
                    }
                }
            }
            return None;
        }
        let first: i32 = ks[0];
        assert(ks@.contains(first));
        assert(ks@.to_set().contains(first));
        assert(!(self@.ids() =~= Set::empty()));
        match self.users.get_mut(first) {
            Some(user) => {
                let packet = set_master(user.id());
                user.send(packet.as_slice());
            },
            None => {},
        }
        self.master_id = first;
        Some(first)
    }

    /// Every connected user but `id`, each once, in no particular order.
    pub fn for_others(&self, id: i32) -> (r: Vec<i32>)
        ensures
            r@.no_duplicates(),
            r@.to_set() == self@.others(id),
    {
        let all = self.users.keys();
        let mut out: Vec<i32> = Vec::new();
        let mut i: usize = 0;
        while i < all.len()
            invariant
                i <= all.len(),
                all@.no_duplicates(),
                out@.no_duplicates(),
                forall|k: i32|
                    out@.contains(k) <==> all@.take(i as int).contains(k) && k != id,
            decreases all.len() - i,
        {
            let k: i32 = all[i];
            let ghost kept = out@;
            proof {
                lemma_take_next(all@, i as int);
            }
            if k != id {
                proof {
                    lemma_push_fresh(out@, k);
                }
                out.push(k);
            }
            assert forall|x: i32|
                out@.contains(x) <==> all@.take(i + 1).contains(x) && x != id by {
                assert(kept.contains(x) <==> all@.take(i as int).contains(x) && x != id);
            }
            i = i + 1;
        }
        assert(all@.take(all.len() as int) =~= all@);
        assert(out@.to_set() =~= self@.others(id));
        out
    }

    /// The connected users in the aura of `id`, each once, in no particular
    /// order. An id in the aura that is not connected is passed over.
    pub fn for_aura(&self, id: i32) -> (r: Vec<i32>)
        ensures
            r@.no_duplicates(),
            r@.to_set() == self@.aura_of(id),
    {
        let mut out: Vec<i32> = Vec::new();
        match self.users.get(id) {
            None => {
                assert(out@.to_set() =~= self@.aura_of(id));
            },
            Some(user) => {
                let all = user.aura();
                let mut i: usize = 0;
                while i < all.len()
                    invariant
                        i <= all.len(),
                        all@.no_duplicates(),
                        out@.no_duplicates(),
                        forall|k: i32|
                            out@.contains(k) <==> all@.take(i as int).contains(k)
                                && self@.ids().contains(k),
                    decreases all.len() - i,
                {
                    let k: i32 = all[i];
                    let ghost kept = out@;
                    proof {
                        lemma_take_next(all@, i as int);
                    }
                    if self.users.contains_key(k) {
                        proof {
                            lemma_push_fresh(out@, k);
                        }
                        out.push(k);
                    }
                    assert forall|x: i32|
                        out@.contains(x) <==> all@.take(i + 1).contains(x)
                            && self@.ids().contains(x) by {
                        assert(kept.contains(x) <==> all@.take(i as int).contains(x)
                            && self@.ids().contains(x));
                    }
                    i = i + 1;
                }
                assert(all@.take(all.len() as int) =~= all@);
                assert(out@.to_set() =~= self@.aura_of(id));
            },
        }
        out
    }

    /// Queues `bytes` for each of `ids` that is connected.
    fn send_each(&mut self, ids: &Vec<i32>, bytes: &[u8])
        requires
            old(self)@.wf(),
            ids@.no_duplicates(),
        ensures
            final(self)@ == old(self)@.with_users(
                delivered(old(self)@.users, ids@.to_set(), bytes@),
            ),
            final(self)@.wf(),
    {
        let mut i: usize = 0;
        assert(self@.users =~= delivered(old(self)@.users, ids@.take(0).to_set(), bytes@));
        while i < ids.len()
            invariant
                i <= ids.len(),
                ids@.no_duplicates(),
                self@ == old(self)@.with_users(
                    delivered(old(self)@.users, ids@.take(i as int).to_set(), bytes@),
                ),
            decreases ids.len() - i,
        {
            let k: i32 = ids[i];
            proof {
                lemma_take_next(ids@, i as int);
            }
            match self.users.get_mut(k) {
                Some(user) => {
                    user.send(bytes);
                },
                None => {},
            }
            assert(self@.users =~= delivered(
                old(self)@.users,
                ids@.take(i + 1).to_set(),
                bytes@,
            ));
            i = i + 1;
        }
        assert(ids@.take(ids.len() as int) =~= ids@);
        proof {
            lemma_delivered_wf(old(self)@, ids@.to_set(), bytes@);
        }
    }

    /// Queues `bytes` for every connected user.
    pub fn send_all(&mut self, bytes: &[u8])
        requires
            old(self)@.wf(),
        ensures
            final(self)@ == old(self)@.with_users(
                delivered(old(self)@.users, old(self)@.ids(), bytes@),
            ),
            final(self)@.wf(),
    {
        let ids = self.users.keys();
        self.send_each(&ids, bytes);
    }

    /// Queues `bytes` for every connected user but `id`.
    pub fn send_others(&mut self, id: i32, bytes: &[u8])
        requires
            old(self)@.wf(),
        ensures
            final(self)@ == old(self)@.with_users(
                delivered(old(self)@.users, old(self)@.others(id), bytes@),
            ),
            final(self)@.wf(),
    {
        let ids = self.for_others(id);
        self.send_each(&ids, bytes);
    }

    /// Queues `bytes` for every connected user in the aura of `id`.
    pub fn send_aura(&mut self, id: i32, bytes: &[u8])
        requires
            old(self)@.wf(),
        ensures
            final(self)@ == old(self)@.with_users(
                delivered(old(self)@.users, old(self)@.aura_of(id), bytes@),
            ),
            final(self)@.wf(),
    {
        let ids = self.for_aura(id);
        self.send_each(&ids, bytes);
    }

    /// Queues `bytes` for the user `id`; says whether it is connected.
    pub fn send_to(&mut self, id: i32, bytes: &[u8]) -> (found: bool)
        requires
            old(self)@.wf(),
        ensures
            found == old(self)@.ids().contains(id),
            final(self)@ == old(self)@.with_users(
                delivered(old(self)@.users, set![id], bytes@),
            ),
            final(self)@.wf(),
    {
        let found = match self.users.get_mut(id) {
            Some(user) => {
                user.send(bytes);
                true
            },
            None => false,
        };
        assert(self@.users =~= delivered(old(self)@.users, set![id], bytes@));
        proof {
            lemma_delivered_wf(old(self)@, set![id], bytes@);
        }
        found
    }

    /// Tells every connected user how many users are connected.
    pub fn send_user_count(&mut self)
        requires
            old(self)@.wf(),
        ensures
            final(self)@ == old(self)@.with_users(
                delivered(
                    old(self)@.users,
                    old(self)@.ids(),
                    user_count_packet(old(self)@.ids().len() as i32),
                ),
            ),
            final(self)@.wf(),
    {
        let count: usize = self.len();
        let msg = user_count(count as i32);
        self.send_all(msg.as_slice());
    }

    /// Removes the user `id`: every user in its aura loses it from its own
    /// aura and is sent `SMsgUserLeft`. Nothing happens where `id` is not
    /// connected.
    pub fn disconnect(&mut self, id: i32)
        requires
            old(self)@.wf(),
        ensures
            final(self)@ == disconnect_model(old(self)@, id),
            final(self)@.wf(),
    {
        let peers = self.for_aura(id);
        let mut i: usize = 0;
        let ghost before = self@;
        assert(self@.users =~= leaving(before, id, peers@.take(0).to_set()));
        while i < peers.len()
            invariant
                i <= peers.len(),
                before == old(self)@,
                before.wf(),
                peers@.no_duplicates(),
                peers@.to_set() == before.aura_of(id),
                self@ == before.with_users(
                    leaving(before, id, peers@.take(i as int).to_set()),
                ),
            decreases peers.len() - i,
        {
            let k: i32 = peers[i];
            proof {
                lemma_take_next(peers@, i as int);
                assert(peers@.to_set().contains(k));
            }
            match self.users.get_mut(k) {
                Some(other) => {
                    let _ = other.remove_aura(id);
                    let packet = user_left(other.id(), id);
                    other.send(packet.as_slice());
                },
                None => {},
            }
            assert(self@.users =~= leaving(before, id, peers@.take(i + 1).to_set()));
            i = i + 1;
        }
        assert(peers@.take(peers.len() as int) =~= peers@);
        let _ = self.users.remove(id);
        proof {
            lemma_disconnect_wf(before, id);
            assert(self@.users =~= disconnect_model(before, id).users);
        }
    }

    /// The number of bytes to read next for the user `id`.
    pub fn wants(&self, id: i32) -> (r: Option<usize>)
        requires
            self@.wf(),
        ensures
            r is Some <==> self@.ids().contains(id),
            r matches Some(n) ==> n == need(self@.users[id].stage) - self@.users[id].pending.len()
                && n > 0,
    {
        match self.users.get(id) {
            Some(user) => Some(user.wants()),
            None => None,
        }
    }

    /// Hands the outcome of a read of at most `wants(id)` bytes to the user
    /// `id`. Nothing happens where `id` is not connected.
    pub fn poll(&mut self, id: i32, read: ReadOutcome) -> (r: Polled)
        requires
            old(self)@.wf(),
            old(self)@.ids().contains(id) ==> (read@ matches ReadModel::Data(bytes) ==> old(self)@.users[id].pending.len() + bytes.len() <= need(old(self)@.users[id].stage)),
        ensures
            !old(self)@.ids().contains(id) ==> r@ == PolledModel::Idle && final(self)@ == old(self)@,
            old(self)@.ids().contains(id) ==> r@ == poll_step(old(self)@.users[id], read@).1
                && final(self)@ == old(self)@.with_users(
                old(self)@.users.insert(id, poll_step(old(self)@.users[id], read@).0),
            ),
            final(self)@.wf(),
            r@ matches PolledModel::Event(e) ==> e.wf(),
    {
        let r = match self.users.get_mut(id) {
            Some(user) => user.poll(read),
            None => Polled::Idle,
        };
        proof {
            if old(self)@.ids().contains(id) {
                lemma_poll_keeps(old(self)@.users[id], read@);
                lemma_replace_wf(old(self)@, id, poll_step(old(self)@.users[id], read@).0);
            }
        }
        r
    }

    /// Hands over the packets queued for the user `id`, oldest first, and
    /// leaves its outbox empty.
    pub fn take_outbox(&mut self, id: i32) -> (out: Vec<Vec<u8>>)
        requires
            old(self)@.wf(),
        ensures
            !old(self)@.ids().contains(id) ==> out@.len() == 0 && final(self)@ == old(self)@,
            old(self)@.ids().contains(id) ==> packets_of(out@) == old(self)@.users[id].outbox
                && final(self)@ == old(self)@.with_users(
                old(self)@.users.insert(
                    id,
                    UserModel { outbox: Seq::empty(), ..old(self)@.users[id] },
                ),
            ),
            final(self)@.wf(),
    {
        let out = match self.users.get_mut(id) {
            Some(user) => user.take_outbox(),
            None => Vec::new(),
        };
        proof {
            if old(self)@.ids().contains(id) {
                lemma_replace_wf(
                    old(self)@,
                    id,
                    UserModel { outbox: Seq::empty(), ..old(self)@.users[id] },
                );
            }
        }
        out
    }

    /// Whether the user `id` is in the list and has not been marked as
    /// gone.
    pub fn is_connected(&self, id: i32) -> (r: bool)
        ensures
            r == (self@.ids().contains(id) && self@.users[id].connected),
    {
        match self.users.get(id) {
            Some(user) => user.is_connected(),
            None => false,
        }
    }

    /// Marks the user `id` as gone, to be removed when the tick ends; says
    /// whether there is such a user.
    pub fn mark_disconnected(&mut self, id: i32) -> (found: bool)
        requires
            old(self)@.wf(),
        ensures
            found == old(self)@.ids().contains(id),
            final(self)@ == old(self)@.with_users(
                if found {
                    old(self)@.users.insert(id, old(self)@.users[id].disconnected())
                } else {
                    old(self)@.users
                },
            ),
            final(self)@.wf(),
    {
        let found = match self.users.get_mut(id) {
            Some(user) => {
                user.disconnect();
                true
            },
            None => false,
        };
        proof {
            if found {
                lemma_replace_wf(old(self)@, id, old(self)@.users[id].disconnected());
            }
        }
        found
    }

    /// Moves the user `id` to `pos` and tells it so; says whether there is
    /// such a user.
    pub fn set_pos(&mut self, id: i32, pos: Vector3) -> (found: bool)
        requires
            old(self)@.wf(),
        ensures
            found == old(self)@.ids().contains(id),
            final(self)@ == old(self)@.with_users(
                if found {
                    old(self)@.users.insert(
                        id,
                        UserModel {
                            position: pos,
                            ..old(self)@.users[id].sent(position_update_bytes(id, pos))
                        },
                    )
                } else {
                    old(self)@.users
                },
            ),
            final(self)@.wf(),
    {
        let found = match self.users.get_mut(id) {
            Some(user) => {
                user.set_pos(pos);
                true
            },
            None => false,
        };
        proof {
            if found {
                lemma_replace_wf(
                    old(self)@,
                    id,
                    UserModel {
                        position: pos,
                        ..old(self)@.users[id].sent(position_update_bytes(id, pos))
                    },
                );
            }
        }
        found
    }

    /// Turns the user `id` to `rot` and tells it so; says whether there is
    /// such a user.
    pub fn set_rot(&mut self, id: i32, rot: Mat3) -> (found: bool)
        requires
            old(self)@.wf(),
        ensures
            found == old(self)@.ids().contains(id),
            final(self)@ == old(self)@.with_users(
                if found {
                    old(self)@.users.insert(
                        id,
                        UserModel {
                            rotation: rot.data@,
                            ..old(self)@.users[id].sent(
                                transform_packet(id, rot.data@, old(self)@.users[id].position),
                            )
                        },
                    )
                } else {
                    old(self)@.users
                },
            ),
            final(self)@.wf(),
    {
        let found = match self.users.get_mut(id) {
            Some(user) => {
                user.set_rot(rot);
                true
            },
            None => false,
        };
        proof {
            if found {
                lemma_replace_wf(
                    old(self)@,
                    id,
                    UserModel {
                        rotation: rot.data@,
                        ..old(self)@.users[id].sent(
                            transform_packet(id, rot.data@, old(self)@.users[id].position),
                        )
                    },
                );
            }
        }
        found
    }

    /// Shows `msg` to the user `id` as a chat line; says whether there is
    /// such a user.
    pub fn send_msg(&mut self, id: i32, msg: &str) -> (found: bool)
        requires
            old(self)@.wf(),
            byte_len(msg@) <= MAX_TEXT,
        ensures
            found == old(self)@.ids().contains(id),
            final(self)@ == old(self)@.with_users(
                delivered(old(self)@.users, set![id], chat_packet(id, msg@)),
            ),
            final(self)@.wf(),
    {
        let found = match self.users.get_mut(id) {
            Some(user) => {
                user.send_msg(msg);
                true
            },
            None => false,
        };
        assert(self@.users =~= delivered(old(self)@.users, set![id], chat_packet(id, msg@)));
        proof {
            lemma_delivered_wf(old(self)@, set![id], chat_packet(id, msg@));
        }
        found
    }

    /// Brings the aura of `id` up to date: every other user that has come
    /// within `radius` of it enters its aura, and every user of its aura
    /// that is further away leaves it. Both users of such a pair are told.
    /// Nothing happens where `id` is not connected. Returns the changes of
    /// the aura of `id`.
    pub fn update_aura(&mut self, id: i32, radius: i32) -> (changes: Vec<AuraChange>)
        requires
            old(self)@.wf(),
        ensures
            aura_step(old(self)@, final(self)@, id, radius, changes@),
            final(self)@.wf(),
    {
        let ghost before = self@;
        let mut changes: Vec<AuraChange> = Vec::new();
        let mut user: User = match self.users.remove(id) {
            Some(user) => user,
            None => {
                assert(self@.users =~= before.users);
                return changes;
            },
        };
        let order = self.users.keys();
        let reach: u128 = square(radius);
        let mut i: usize = 0;
        proof {
            assert(order@.to_set() =~= before.others(id));
            assert(self@.users =~= aura_pending(before, id, order@.take(0), radius));
        }
        while i < order.len()
            invariant
                i <= order.len(),
                before == old(self)@,
                before.wf(),
                before.ids().contains(id),
                order@.no_duplicates(),
                order@.to_set() == before.others(id),
                reach == radius * radius,
                user@ == aura_focus(before, id, order@.take(i as int), radius),
                changes@ == aura_changes(before, id, order@.take(i as int), radius),
                self@ == before.with_users(aura_pending(before, id, order@.take(i as int), radius)),
            decreases order.len() - i,
        {
            let k: i32 = order[i];
            proof {
                lemma_take_next(order@, i as int);
                assert(order@.to_set().contains(k));
                assert forall|x: i32| order@.take(i as int).contains(x) implies before.ids().contains(
                    x,
                ) by {
                    let j = choose|j: int|
                        0 <= j < order@.take(i as int).len() && order@.take(i as int)[j] == x;
                    assert(order@[j] == x);
                    assert(order@.to_set().contains(x));
                }
                assert(order@.take(i as int).no_duplicates());
                lemma_aura_focus(before, id, order@.take(i as int), radius);
                assert(order@.take(i + 1).drop_last() =~= order@.take(i as int));
                assert(order@.take(i + 1).last() == k);
                assert(before.users[k].wf() && before.users[k].id == k);
                assert(before.users[id].wf() && before.users[id].id == id);
            }
            match self.users.get_mut(k) {
                Some(other) => {
                    let near: bool = user.pos().distance_sqr(other.pos()) <= reach;
                    let linked: bool = user.check_aura(k);
                    if near && !linked {
                        let _ = other.add_aura(id);
                        let joined = user_joined(k, id, user.avatar().as_str(), user.name().as_str());
                        other.send(joined.as_slice());
                        let shown = character(k, id, user.data().as_str());
                        other.send(shown.as_slice());
                        let _ = user.add_aura(k);
                        let joined = user_joined(
                            id,
                            k,
                            other.avatar().as_str(),
                            other.name().as_str(),
                        );
                        user.send(joined.as_slice());
                        let shown = character(id, k, other.data().as_str());
                        user.send(shown.as_slice());
                        changes.push(AuraChange::Enter(k));
                    } else if !near && linked {
                        let _ = other.remove_aura(id);
                        let left = user_left(k, id);
                        other.send(left.as_slice());
                        let _ = user.remove_aura(k);
                        let left = user_left(id, k);
                        user.send(left.as_slice());
                        changes.push(AuraChange::Leave(k));
                    }
                },
                None => {},
            }
            assert(self@.users =~= aura_pending(before, id, order@.take(i + 1), radius));
            i = i + 1;
        }
        assert(order@.take(order.len() as int) =~= order@);
        let _ = self.users.insert(id, user);
        proof {
            assert forall|k: i32| order@.contains(k) <==> before.ids().contains(k) && k != id by {
                assert(order@.to_set().contains(k) <==> before.others(id).contains(k));
            }
            assert(self@.users =~= aura_updated(before, id, order@, radius).users);
            lemma_aura_updated_wf(before, id, order@, radius);
        }
        changes
    }
}

/// `radius * radius`.
fn square(radius: i32) -> (r: u128)
    ensures
        r == radius * radius,
{
    let wide: i64 = radius as i64;
    assert(wide * wide >= 0 && wide * wide <= 0x4000_0000_0000_0000) by (nonlinear_arith)
        requires
            -0x8000_0000 <= wide <= 0x7fff_ffff,
    ;
    (wide * wide) as u128
}

/// Whether two points are no further apart than `radius`. The comparison is
/// between squares, so a point at exactly `radius` is within it.
pub open spec fn in_radius(a: Vector3, b: Vector3, radius: i32) -> bool {
    a.spec_distance_sqr(b) <= radius * radius
}

/// The user `who` after `about` has entered its aura: `about` is in its
/// aura, and it has been sent `SMsgUserJoined` and then the character data
/// of `about`.
pub open spec fn met(who: UserModel, about: UserModel) -> UserModel {
    UserModel { aura: who.aura.insert(about.id), ..who }.sent(
        user_joined_packet(who.id, about.id, about.avatar, about.username),
    ).sent(character_packet(who.id, about.id, about.data))
}

/// One of two users after the aura between them has been brought up to
/// date. `linked` says whether they were in each other's aura, `near`
/// whether they are within the radius now: they enter where they are near
/// and were not linked, and leave where they were linked and are not near.
pub open spec fn aura_side(who: UserModel, about: UserModel, linked: bool, near: bool) -> UserModel {
    if near && !linked {
        met(who, about)
    } else if !near && linked {
        parted(who, about.id)
    } else {
        who
    }
}

/// The user `k` after the aura of `id` has been brought up to date.
pub open spec fn aura_peer(l: UserListModel, id: i32, k: i32, radius: i32) -> UserModel {
    aura_side(
        l.users[k],
        l.users[id],
        l.users[id].aura.contains(k),
        in_radius(l.users[id].position, l.users[k].position, radius),
    )
}

/// The user `id` after its aura has been brought up to date against the
/// users of `order`, one after the other.
pub open spec fn aura_focus(l: UserListModel, id: i32, order: Seq<i32>, radius: i32) -> UserModel
    decreases order.len(),
{
    if order.len() == 0 {
        l.users[id]
    } else {
        aura_side(
            aura_focus(l, id, order.drop_last(), radius),
            l.users[order.last()],
            l.users[id].aura.contains(order.last()),
            in_radius(l.users[id].position, l.users[order.last()].position, radius),
        )
    }
}

/// The list after the aura of `id` has been brought up to date against
/// every other user, in the order `order`.
pub open spec fn aura_updated(l: UserListModel, id: i32, order: Seq<i32>, radius: i32) -> UserListModel {
    l.with_users(
        Map::new(
            |k: i32| l.ids().contains(k),
            |k: i32|
                if k == id {
                    aura_focus(l, id, order, radius)
                } else {
                    aura_peer(l, id, k, radius)
                },
        ),
    )
}

/// A change of one user's aura.
#[derive(Clone, Copy, Debug, PartialEq, Eq, Structural)]
pub enum AuraChange {
    /// The user with this id has entered the aura.
    Enter(i32),
    /// The user with this id has left the aura.
    Leave(i32),
}

/// The changes of the aura of `id` that bringing it up to date against the
/// users of `order` makes, in that order.
pub open spec fn aura_changes(l: UserListModel, id: i32, order: Seq<i32>, radius: i32) -> Seq<
    AuraChange,
>
    decreases order.len(),
{
    if order.len() == 0 {
        Seq::empty()
    } else if in_radius(l.users[id].position, l.users[order.last()].position, radius)
        && !l.users[id].aura.contains(order.last()) {
        aura_changes(l, id, order.drop_last(), radius).push(AuraChange::Enter(order.last()))
    } else if !in_radius(l.users[id].position, l.users[order.last()].position, radius)
        && l.users[id].aura.contains(order.last()) {
        aura_changes(l, id, order.drop_last(), radius).push(AuraChange::Leave(order.last()))
    } else {
        aura_changes(l, id, order.drop_last(), radius)
    }
}

/// The relation between a list before and after `update_aura(id, radius)`,
/// and the changes that `update_aura` returned.
///
/// Each other user is dealt with exactly once. The order in which they are
/// dealt with is not fixed; it shows in the order of the changes, and in
/// the order of the packets that `id` itself is sent.
pub open spec fn aura_step(
    before: UserListModel,
    after: UserListModel,
    id: i32,
    radius: i32,
    changes: Seq<AuraChange>,
) -> bool {
    if !before.ids().contains(id) {
        after == before && changes == Seq::<AuraChange>::empty()
    } else {
        exists|order: Seq<i32>|
            order.no_duplicates() && order.to_set() == before.others(id) && after
                == #[trigger] aura_updated(before, id, order, radius) && changes == aura_changes(
                before,
                id,
                order,
                radius,
            )
    }
}

/// The users while the aura of `id` is being brought up to date: `id` is
/// held aside and the users of `done` have been dealt with.
pub open spec fn aura_pending(l: UserListModel, id: i32, done: Seq<i32>, radius: i32) -> Map<
    i32,
    UserModel,
> {
    Map::new(
        |k: i32| l.ids().contains(k) && k != id,
        |k: i32|
            if done.contains(k) {
                aura_peer(l, id, k, radius)
            } else {
                l.users[k]
            },
    )
}

/// The users while `id` is being disconnected: those of `told` have lost it
/// from their aura and have been sent `SMsgUserLeft`.
pub open spec fn leaving(l: UserListModel, id: i32, told: Set<i32>) -> Map<i32, UserModel> {
    Map::new(
        |k: i32| l.ids().contains(k),
        |k: i32|
            if told.contains(k) {
                parted(l.users[k], id)
            } else {
                l.users[k]
            },
    )
}

/// The first `i + 1` items of a sequence without duplicates are its first
/// `i` items and one that is not among them.
pub proof fn lemma_take_next(s: Seq<i32>, i: int)
    requires
        0 <= i < s.len(),
        s.no_duplicates(),
    ensures
        s.take(i + 1) =~= s.take(i).push(s[i]),
        !s.take(i).contains(s[i]),
        s.take(i + 1).to_set() =~= s.take(i).to_set().insert(s[i]),
        forall|x: i32| s.take(i + 1).contains(x) <==> s.take(i).contains(x) || x == s[i],
        s.contains(s[i]),
{
    let more = s.take(i + 1);
    let less = s.take(i);
    assert(more =~= less.push(s[i]));
    assert forall|k: i32| more.to_set().contains(k) <==> less.to_set().insert(s[i]).contains(
        k,
    ) by {
        if more.contains(k) {
            let j = choose|j: int| 0 <= j < more.len() && more[j] == k;
            if j < i {
                assert(less[j] == k);
            }
        }
        if less.contains(k) {
            let j = choose|j: int| 0 <= j < less.len() && less[j] == k;
            assert(more[j] == k);
        }
        if k == s[i] {
            assert(more[i] == k);
        }
    }
    if less.contains(s[i]) {
        let j = choose|j: int| 0 <= j < less.len() && less[j] == s[i];
        assert(s[j] == s[i]);
    }
    assert forall|x: i32| more.contains(x) <==> less.contains(x) || x == s[i] by {
        assert(more.to_set().contains(x) <==> less.to_set().insert(s[i]).contains(x));
    }
}

/// A sequence without duplicates stays so when an item that it does not
/// hold is added.
pub proof fn lemma_push_fresh(s: Seq<i32>, k: i32)
    requires
        s.no_duplicates(),
        !s.contains(k),
    ensures
        s.push(k).no_duplicates(),
        forall|x: i32| s.push(k).contains(x) <==> s.contains(x) || x == k,
{
    assert forall|x: i32| s.push(k).contains(x) <==> s.contains(x) || x == k by {
        let t = s.push(k);
        if t.contains(x) {
            let j = choose|j: int| 0 <= j < t.len() && t[j] == x;
            if j < s.len() {
                assert(s[j] == x);
            }
        }
        if s.contains(x) {
            let j = choose|j: int| 0 <= j < s.len() && s[j] == x;
            assert(t[j] == x);
        }
        if x == k {
            assert(t[s.len() as int] == x);
        }
    }
}

/// Queuing a packet for some users keeps a list well formed.
pub proof fn lemma_delivered_wf(l: UserListModel, targets: Set<i32>, packet: Seq<u8>)
    requires
        l.wf(),
    ensures
        l.with_users(delivered(l.users, targets, packet)).wf(),
{
    let after = l.with_users(delivered(l.users, targets, packet));
    assert forall|a: i32, b: i32|
        after.users.dom().contains(a) && #[trigger] after.users[a].aura.contains(
            b,
        ) implies b != a && after.users.dom().contains(b) && after.users[b].aura.contains(a) by {
        assert(l.users[a].aura.contains(b));
    }
}

/// Disconnecting a user keeps a list well formed.
pub proof fn lemma_disconnect_wf(l: UserListModel, id: i32)
    requires
        l.wf(),
    ensures
        disconnect_model(l, id).wf(),
{
    let after = disconnect_model(l, id);
    if l.ids().contains(id) {
        assert forall|a: i32, b: i32|
            after.users.dom().contains(a) && #[trigger] after.users[a].aura.contains(
                b,
            ) implies b != a && after.users.dom().contains(b) && after.users[b].aura.contains(
            a,
        ) by {
            assert(l.users[a].aura.contains(b));
            if b == id {
                assert(l.users[id].aura.contains(a));
            }
        }
    }
}

/// Bringing the aura of `id` up to date changes nothing of `id` but its
/// aura and its outbox. A user of `order` is in its aura afterwards exactly
/// when it is within the radius; for any other id the aura says what it
/// said before.
pub proof fn lemma_aura_focus(l: UserListModel, id: i32, order: Seq<i32>, radius: i32)
    requires
        l.wf(),
        l.ids().contains(id),
        order.no_duplicates(),
        forall|k: i32| order.contains(k) ==> l.ids().contains(k),
    ensures
        aura_focus(l, id, order, radius) == (UserModel {
            aura: aura_focus(l, id, order, radius).aura,
            outbox: aura_focus(l, id, order, radius).outbox,
            ..l.users[id]
        }),
        aura_focus(l, id, order, radius).wf(),
        forall|k: i32|
            #[trigger] aura_focus(l, id, order, radius).aura.contains(k) <==> if order.contains(k) {
                in_radius(l.users[id].position, l.users[k].position, radius)
            } else {
                l.users[id].aura.contains(k)
            },
    decreases order.len(),
{
    if order.len() > 0 {
        let rest = order.drop_last();
        let k = order.last();
        assert(order =~= rest.push(k));
        assert(order.contains(k)) by {
            assert(order[order.len() - 1] == k);
        }
        assert(!rest.contains(k)) by {
            if rest.contains(k) {
                let j = choose|j: int| 0 <= j < rest.len() && rest[j] == k;
                assert(order[j] == k);
            }
        }
        assert forall|x: i32| order.contains(x) <==> rest.contains(x) || x == k by {
            if order.contains(x) {
                let j = choose|j: int| 0 <= j < order.len() && order[j] == x;
                if j < rest.len() {
                    assert(rest[j] == x);
                }
            }
            if rest.contains(x) {
                let j = choose|j: int| 0 <= j < rest.len() && rest[j] == x;
                assert(order[j] == x);
            }
        }
        assert(rest.no_duplicates());
        lemma_aura_focus(l, id, rest, radius);
        assert(l.users[k].id == k);
    }
}

/// Bringing the aura of a user up to date keeps a list well formed.
pub proof fn lemma_aura_updated_wf(l: UserListModel, id: i32, order: Seq<i32>, radius: i32)
    requires
        l.wf(),
        l.ids().contains(id),
        order.no_duplicates(),
        order.to_set() == l.others(id),
    ensures
        aura_updated(l, id, order, radius).wf(),
{
    let after = aura_updated(l, id, order, radius);
    assert forall|k: i32| order.contains(k) <==> l.ids().contains(k) && k != id by {
        assert(order.to_set().contains(k) <==> l.others(id).contains(k));
    }
    lemma_aura_focus(l, id, order, radius);
    assert forall|k: i32| #[trigger] after.users.dom().contains(k) implies 1 <= k
        <= after.max_index && after.users[k].id == k && after.users[k].wf() by {
        assert(l.users.dom().contains(k));
        assert(l.users[id].wf());
    }
    assert forall|a: i32, b: i32|
        after.users.dom().contains(a) && #[trigger] after.users[a].aura.contains(
            b,
        ) implies b != a && after.users.dom().contains(b) && after.users[b].aura.contains(a) by {
        assert(l.users.dom().contains(a));
        assert(l.users[a].id == a);
        assert(l.users[id].id == id);
        if a == id {
            if order.contains(b) {
                assert(l.users[id].aura.contains(b) ==> l.users[b].aura.contains(id));
            } else {
                assert(l.users[id].aura.contains(b));
            }
        } else if b == id {
            assert(aura_focus(l, id, order, radius).aura.contains(a) <==> in_radius(
                l.users[id].position,
                l.users[a].position,
                radius,
            ));
            assert(l.users[a].aura.contains(id) ==> l.users[id].aura.contains(a));
        } else {
            assert(l.users[a].aura.contains(b));
            assert(l.users[b].aura.contains(a));
            assert(l.users[b].id == b);
        }
    }
}

/// A read changes neither the id nor the aura of a user.
pub proof fn lemma_poll_keeps(u: UserModel, read: ReadModel)
    ensures
        poll_step(u, read).0.id == u.id,
        poll_step(u, read).0.aura == u.aura,
{
}

/// A list stays well formed when one of its users is replaced by a
/// well-formed user with the same id and the same aura.
pub proof fn lemma_replace_wf(l: UserListModel, id: i32, user: UserModel)
    requires
        l.wf(),
        l.ids().contains(id),
        user.wf(),
        user.id == id,
        user.aura == l.users[id].aura,
    ensures
        l.with_users(l.users.insert(id, user)).wf(),
{
    let after = l.with_users(l.users.insert(id, user));
    assert forall|a: i32, b: i32|
        after.users.dom().contains(a) && #[trigger] after.users[a].aura.contains(
            b,
        ) implies b != a && after.users.dom().contains(b) && after.users[b].aura.contains(a) by {
        assert(l.users[a].aura.contains(b));
    }
}

/// A user hears of each change of its link with `id` exactly once: when
/// `id` enters its aura it is sent one `SMsgUserJoined` and the character
/// data of `id`, when `id` leaves its aura it is sent one `SMsgUserLeft`,
/// and while nothing changes it is sent nothing.
pub proof fn lemma_peer_hears_once(l: UserListModel, id: i32, k: i32, radius: i32)
    requires
        l.wf(),
        l.ids().contains(id),
        l.ids().contains(k),
        k != id,
    ensures
        aura_peer(l, id, k, radius).outbox == l.users[k].outbox + (if in_radius(
            l.users[id].position,
            l.users[k].position,
            radius,
        ) && !l.users[k].aura.contains(id) {
            seq![
                user_joined_packet(k, id, l.users[id].avatar, l.users[id].username),
                character_packet(k, id, l.users[id].data),
            ]
        } else if !in_radius(l.users[id].position, l.users[k].position, radius)
            && l.users[k].aura.contains(id) {
            seq![user_left_packet(k, id)]
        } else {
            Seq::empty()
        }),
        aura_peer(l, id, k, radius).aura.contains(id) == in_radius(
            l.users[id].position,
            l.users[k].position,
            radius,
        ),
{
    assert(l.users[k].id == k && l.users[id].id == id);
    assert(l.users[k].aura.contains(id) <==> l.users[id].aura.contains(k));
    let before = l.users[k].outbox;
    let after = aura_peer(l, id, k, radius).outbox;
    if in_radius(l.users[id].position, l.users[k].position, radius) && !l.users[k].aura.contains(
        id,
    ) {
        assert(after =~= before + seq![
            user_joined_packet(k, id, l.users[id].avatar, l.users[id].username),
            character_packet(k, id, l.users[id].data),
        ]);
    } else if !in_radius(l.users[id].position, l.users[k].position, radius)
        && l.users[k].aura.contains(id) {
        assert(after =~= before + seq![user_left_packet(k, id)]);
    } else {
        assert(after =~= before + Seq::<Seq<u8>>::empty());
    }
}

/// Disconnecting a user a second time changes nothing.
pub proof fn lemma_disconnect_twice(l: UserListModel, id: i32)
    ensures
        disconnect_model(disconnect_model(l, id), id) == disconnect_model(l, id),
{
}

} // verus!
