//! The table of a bureau's users, keyed by id.

use vstd::prelude::*;
use crate::user::{User, UserModel};

verus! {

/// The users of one bureau in a `hashbrown::HashMap`, each under its id.
#[verifier::external_body]
pub struct UserMap {
    inner: hashbrown::HashMap<i32, User>,
}

/// What a table holds: the state of each user, by the key it is stored
/// under.
pub uninterp spec fn entries(m: UserMap) -> Map<i32, UserModel>;

impl UserMap {
    /// `HashMap::new`: a table that holds nothing.
    #[verifier::external_body]
    pub(crate) fn new() -> (m: UserMap)
        ensures
            entries(m) == (Map::<i32, UserModel>::empty()),
    {
        UserMap { inner: hashbrown::HashMap::new() }
    }

    /// `HashMap::len`: the number of keys.
    #[verifier::external_body]
    pub(crate) fn len(&self) -> (n: usize)
        ensures
            n == entries(*self).dom().len(),
    {
        self.inner.len()
    }

    /// `HashMap::contains_key`: whether a user is stored under `k`.
    #[verifier::external_body]
    pub(crate) fn contains_key(&self, k: i32) -> (b: bool)
        ensures
            b == entries(*self).dom().contains(k),
    {
        self.inner.contains_key(&k)
    }

    /// `HashMap::get`: the user stored under `k`, if there is one.
    #[verifier::external_body]
    pub(crate) fn get(&self, k: i32) -> (r: Option<&User>)
        ensures
            r is Some <==> entries(*self).dom().contains(k),
            r is Some ==> r->0@ == entries(*self)[k],
    {
        self.inner.get(&k)
    }

    /// `HashMap::get_mut`: the user stored under `k`, if there is one, to be
    /// changed in place. Whatever the caller leaves in it is what the table
    /// then holds under `k`; no other entry changes.
    #[verifier::external_body]
    pub(crate) fn get_mut(&mut self, k: i32) -> (r: Option<&mut User>)
        ensures
            r is Some <==> entries(*old(self)).dom().contains(k),
            r is Some ==> (*r->0)@ == entries(*old(self))[k] && entries(*final(self)) == entries(
                *old(self),
            ).insert(k, (*final(r->0))@),
            r is None ==> entries(*final(self)) == entries(*old(self)),
    {
        self.inner.get_mut(&k)
    }

    /// `HashMap::insert`: `v` is stored under `k` and replaces what was
    /// there, which is handed back; no other entry changes.
    #[verifier::external_body]
    pub(crate) fn insert(&mut self, k: i32, v: User) -> (prev: Option<User>)
        ensures
            entries(*final(self)) == entries(*old(self)).insert(k, v@),
            prev is Some <==> entries(*old(self)).dom().contains(k),
            prev is Some ==> prev->0@ == entries(*old(self))[k],
    {
        self.inner.insert(k, v)
    }

    /// `HashMap::remove`: the user stored under `k` leaves the table and is
    /// handed back; no other entry changes.
    #[verifier::external_body]
    pub(crate) fn remove(&mut self, k: i32) -> (r: Option<User>)
        ensures
            entries(*final(self)) == entries(*old(self)).remove(k),
            r is Some <==> entries(*old(self)).dom().contains(k),
            r is Some ==> r->0@ == entries(*old(self))[k],
    {
        self.inner.remove(&k)
    }

    /// `HashMap::keys`: every key once, in an order that is not specified.
    #[verifier::external_body]
    pub(crate) fn keys(&self) -> (ks: Vec<i32>)
        ensures
            ks@.no_duplicates(),
            ks@.to_set() == entries(*self).dom(),
    {
        self.inner.keys().copied().collect()
    }
}

} // verus!
