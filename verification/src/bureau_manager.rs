//! The pool of bureaus that host one world: it hands out a bureau with
//! room, asks for a new one while it may grow, and gives up the bureaus
//! that have stayed empty.

use vstd::prelude::*;
use crate::bureau::{Bureau, BureauConfig, BureauModel, ConfigModel};

verus! {

/// The number of seconds after which an empty bureau is given up.
pub const IDLE_SECONDS: u64 = 10;

/// A bureau of a pool and the time, in seconds, at which it was started.
struct BureauEx {
    start_time: u64,
    inner: Bureau,
}

/// A bureau of a pool, as plain values.
pub struct PooledModel {
    pub start_time: u64,
    pub bureau: BureauModel,
}

impl PooledModel {
    /// Whether the bureau has room for another user.
    pub open spec fn has_room(self) -> bool {
        self.bureau.list.ids().len() < self.bureau.config.max_users
    }

    /// Whether the bureau stays in the pool at the time `now`: it does
    /// while it is younger than `IDLE_SECONDS` or has a user.
    pub open spec fn stays(self, now: u64) -> bool {
        now - self.start_time < IDLE_SECONDS || self.bureau.list.ids().len() > 0
    }
}

/// The state of a pool, as plain values.
pub struct ManagerModel {
    /// The world that the pool's bureaus host.
    pub wrl: Seq<char>,
    /// The bureaus, oldest first.
    pub pool: Seq<PooledModel>,
    /// The number of bureaus that the pool may hold.
    pub max: usize,
    /// The settings that every new bureau of the pool gets, but for the
    /// world, which is that of the pool.
    pub config: ConfigModel,
}

impl ManagerModel {
    /// New bureaus admit at least one user, and every bureau of the pool
    /// is well formed.
    pub open spec fn wf(self) -> bool {
        &&& self.config.max_users >= 1
        &&& forall|i: int| 0 <= i < self.pool.len() ==> (#[trigger] self.pool[i]).bureau.wf()
    }

    /// This pool with `pool` in place of its bureaus.
    pub open spec fn with_pool(self, pool: Seq<PooledModel>) -> ManagerModel {
        ManagerModel { pool: pool, ..self }
    }

    /// The bureau that `spawn` adds for the port `port` at the time `now`.
    pub open spec fn newcomer(self, port: u16, now: u64) -> PooledModel {
        PooledModel {
            start_time: now,
            bureau: BureauModel::fresh(port, self.config.hosting(self.wrl)),
        }
    }
}

/// The index of the first bureau at or after `from` that has room.
pub open spec fn first_with_room(pool: Seq<PooledModel>, from: int) -> Option<int>
    decreases pool.len() - from,
{
    if from < 0 || from >= pool.len() {
        None
    } else if pool[from].has_room() {
        Some(from)
    } else {
        first_with_room(pool, from + 1)
    }
}

/// The bureaus of `pool` that stay at the time `now`, in their order.
pub open spec fn staying(pool: Seq<PooledModel>, now: u64) -> Seq<PooledModel>
    decreases pool.len(),
{
    if pool.len() == 0 {
        Seq::empty()
    } else if pool.last().stays(now) {
        staying(pool.drop_last(), now).push(pool.last())
    } else {
        staying(pool.drop_last(), now)
    }
}

/// The ports of the bureaus of `pool` that do not stay at the time `now`,
/// in their order.
pub open spec fn reaped(pool: Seq<PooledModel>, now: u64) -> Seq<u16>
    decreases pool.len(),
{
    if pool.len() == 0 {
        Seq::empty()
    } else if pool.last().stays(now) {
        reaped(pool.drop_last(), now)
    } else {
        reaped(pool.drop_last(), now).push(pool.last().bureau.port)
    }
}

/// Where a client of a world is to go.
#[derive(Clone, Copy, Debug, PartialEq, Eq, Structural)]
pub enum Vacancy {
    /// A bureau with room listens on this port.
    Found(u16),
    /// No bureau has room, and the pool may grow: a bureau is to be started
    /// and handed to `spawn`.
    Spawn,
    /// No bureau has room, and the pool may not grow.
    Full,
}

/// What `available` answers for a pool.
pub open spec fn vacancy(m: ManagerModel) -> Vacancy {
    match first_with_room(m.pool, 0) {
        Some(i) => Vacancy::Found(m.pool[i].bureau.port),
        None => if m.pool.len() < m.max {
            Vacancy::Spawn
        } else {
            Vacancy::Full
        },
    }
}

/// The pool of bureaus for one world.
pub struct BureauManager {
    wrl: String,
    bureaus: Vec<BureauEx>,
    max: usize,
    bureau_config: BureauConfig,
}

/// The models of a pool's bureaus.
closed spec fn pooled_models(bureaus: Seq<BureauEx>) -> Seq<PooledModel> {
    Seq::new(
        bureaus.len(),
        |i: int| PooledModel { start_time: bureaus[i].start_time, bureau: bureaus[i].inner@ },
    )
}

/// Replacing a bureau of a pool replaces its model and no other.
broadcast proof fn lemma_pooled_update(bureaus: Seq<BureauEx>, index: int, x: BureauEx)
    requires
        0 <= index < bureaus.len(),
    ensures
        #[trigger] pooled_models(bureaus.update(index, x)) == pooled_models(bureaus).update(
            index,
            PooledModel { start_time: x.start_time, bureau: x.inner@ },
        ),
{
    assert(pooled_models(bureaus.update(index, x)) =~= pooled_models(bureaus).update(
        index,
        PooledModel { start_time: x.start_time, bureau: x.inner@ },
    ));
}

impl View for BureauManager {
    type V = ManagerModel;

    closed spec fn view(&self) -> ManagerModel {
        ManagerModel {
            wrl: self.wrl@,
            pool: pooled_models(self.bureaus@),
            max: self.max,
            config: self.bureau_config@,
        }
    }
}

impl BureauManager {
    /// An empty pool for the world `wrl` that may hold `max` bureaus.
    pub fn new(wrl: String, max: usize, bureau_config: BureauConfig) -> (m: BureauManager)
        requires
            bureau_config.max_users >= 1,
        ensures
            m@ == (ManagerModel {
                wrl: wrl@,
                pool: Seq::empty(),
                max: max,
                config: bureau_config@,
            }),
            m@.wf(),
    {
        let m = BureauManager { wrl, bureaus: Vec::new(), max, bureau_config };
        assert(m@.pool =~= Seq::empty());
        m
    }

    /// The world that the pool's bureaus host.
    pub fn wrl(&self) -> (w: &String)
        ensures
            w@ == self@.wrl,
    {
        &self.wrl
    }

    /// The number of bureaus in the pool.
    pub fn len(&self) -> (n: usize)
        ensures
            n == self@.pool.len(),
    {
        self.bureaus.len()
    }

    /// The bureau at `index`.
    pub fn bureau(&self, index: usize) -> (b: &Bureau)
        requires
            index < self@.pool.len(),
        ensures
            b@ == self@.pool[index as int].bureau,
    {
        &self.bureaus[index].inner
    }

    /// The bureau at `index`, to be run for a tick.
    pub fn bureau_mut(&mut self, index: usize) -> (b: &mut Bureau)
        requires
            index < old(self)@.pool.len(),
        ensures
            b@ == old(self)@.pool[index as int].bureau,
            final(self)@ == old(self)@.with_pool(
                old(self)@.pool.update(
                    index as int,
                    PooledModel { bureau: final(b)@, ..old(self)@.pool[index as int] },
                ),
            ),
    {
        broadcast use lemma_pooled_update;

        &mut self.bureaus[index].inner
    }

    /// Where the next client of this world is to go: to the first bureau
    /// that has room; to a new bureau where none has and the pool may
    /// grow; nowhere otherwise.
    pub fn available(&self) -> (r: Vacancy)
        requires
            self@.wf(),
        ensures
            r == vacancy(self@),
    {
        let mut i: usize = 0;
        while i < self.bureaus.len()
            invariant
                i <= self.bureaus.len(),
                self@.wf(),
                first_with_room(self@.pool, i as int) == first_with_room(self@.pool, 0),
            decreases self.bureaus.len() - i,
        {
            let bureau = &self.bureaus[i].inner;
            assert(self@.pool[i as int].bureau == bureau@);
            assert(self@.pool[i as int].bureau.wf());
            let max_users: i32 = bureau.config().max_users;
            if bureau.user_count() < max_users as usize {
                return Vacancy::Found(bureau.port());
            }
            i = i + 1;
        }
        if self.bureaus.len() < self.max {
            Vacancy::Spawn
        } else {
            Vacancy::Full
        }
    }

    /// Adds a bureau that has just been started on `port` at the time
    /// `now`, unless the pool is full, and returns its port.
    pub fn spawn(&mut self, port: u16, now: u64) -> (r: Option<u16>)
        requires
            old(self)@.wf(),
        ensures
            old(self)@.pool.len() < old(self)@.max ==> r == Some(port) && final(self)@ == old(
                self,
            )@.with_pool(old(self)@.pool.push(old(self)@.newcomer(port, now))),
            old(self)@.pool.len() >= old(self)@.max ==> r is None && final(self)@ == old(self)@,
            final(self)@.wf(),
    {
        if self.bureaus.len() >= self.max {
            return None;
        }
        let bureau = Bureau::new(port, self.bureau_config.hosting(self.wrl.as_str()));
        self.bureaus.push(BureauEx { start_time: now, inner: bureau });
        assert(self@.pool =~= old(self)@.pool.push(old(self)@.newcomer(port, now)));
        Some(port)
    }

    /// Gives up the bureaus that are empty and at least `IDLE_SECONDS` old
    /// at the time `now`, and returns their ports.
    pub fn poll(&mut self, now: u64) -> (gone: Vec<u16>)
        requires
            old(self)@.wf(),
        ensures
            final(self)@ == old(self)@.with_pool(staying(old(self)@.pool, now)),
            gone@ == reaped(old(self)@.pool, now),
            final(self)@.wf(),
    {
        let mut gone: Vec<u16> = Vec::new();
        let mut kept: usize = 0;
        let ghost before = self@.pool;
        let ghost seen: int = 0;
        assert(before.take(0) =~= Seq::empty());
        assert(self@.pool =~= staying(before.take(0), now) + before.skip(0));
        while kept < self.bureaus.len()
            invariant
                before == old(self)@.pool,
                old(self)@.wf(),
                0 <= seen <= before.len(),
                kept == staying(before.take(seen), now).len(),
                self@ == old(self)@.with_pool(staying(before.take(seen), now) + before.skip(seen)),
                gone@ == reaped(before.take(seen), now),
            decreases before.len() - seen,
        {
            assert(self@.pool[kept as int] == before[seen]);
            assert(before.take(seen + 1).drop_last() =~= before.take(seen));
            assert(before.take(seen + 1).last() == before[seen]);
            assert(before[seen].bureau.wf());
            let start: u64 = self.bureaus[kept].start_time;
            let young: bool = now < start || now - start < IDLE_SECONDS;
            let count: usize = self.bureaus[kept].inner.user_count();
            if young || count > 0 {
                assert(self@.pool =~= staying(before.take(seen + 1), now) + before.skip(seen + 1));
                kept = kept + 1;
            } else {
                let port: u16 = self.bureaus[kept].inner.port();
                let ghost full = self@.pool;
                let _ = self.bureaus.remove(kept);
                gone.push(port);
                assert(self@.pool =~= full.remove(kept as int));
                assert(full.remove(kept as int) =~= staying(before.take(seen), now) + before.skip(
                    seen + 1,
                ));
            }
            proof {
                seen = seen + 1;
            }
        }
        assert(before.take(seen) =~= before) by {
            assert(self@.pool.len() == kept + before.skip(seen).len());
        }
        assert(self@.pool =~= staying(before, now));
        proof {
            lemma_staying_wf(before, now);
        }
        gone
    }
}

/// The bureaus that stay are bureaus of the pool.
pub proof fn lemma_staying_wf(pool: Seq<PooledModel>, now: u64)
    requires
        forall|i: int| 0 <= i < pool.len() ==> (#[trigger] pool[i]).bureau.wf(),
    ensures
        forall|i: int|
            0 <= i < staying(pool, now).len() ==> (#[trigger] staying(pool, now)[i]).bureau.wf(),
        forall|i: int|
            0 <= i < staying(pool, now).len() ==> (#[trigger] staying(pool, now)[i]).stays(now),
    decreases pool.len(),
{
    if pool.len() > 0 {
        lemma_staying_wf(pool.drop_last(), now);
        let rest = staying(pool.drop_last(), now);
        assert forall|i: int| 0 <= i < staying(pool, now).len() implies (#[trigger] staying(
            pool,
            now,
        )[i]).bureau.wf() && staying(pool, now)[i].stays(now) by {
            if i < rest.len() {
                assert(staying(pool, now)[i] == rest[i]);
            } else {
                assert(staying(pool, now)[i] == pool.last());
                assert(pool[pool.len() - 1].bureau.wf());
            }
        }
    }
}

} // verus!
