//! The connection manager: owns the pool, selects an eligible connection
//! per outgoing request by weighted draw, and receives the health events
//! that transport workers report back.

use vstd::prelude::*;

use crate::breaker::BreakerConfig;
use crate::conn::{ClientInfo, HostInfo, InnerConn};
use crate::errors::PoolError;
use crate::rng::{rng_next_state, rng_output, SeededRng};

verus! {

/// Sum of the weights of all connections.
pub open spec fn total_weight(s: Seq<InnerConn>) -> int
    decreases s.len(),
{
    if s.len() == 0 {
        0
    } else {
        total_weight(s.drop_last()) + s.last().weight
    }
}

/// Sum of the weights of the connections whose breaker admits at `now_ms`.
pub open spec fn eligible_weight(s: Seq<InnerConn>, now_ms: u64) -> int
    decreases s.len(),
{
    if s.len() == 0 {
        0
    } else {
        eligible_weight(s.drop_last(), now_ms) + if s.last().breaker.allows(now_ms) {
            s.last().weight as int
        } else {
            0
        }
    }
}

/// Does the cumulative-weight walk over `s` pick index `i` for `draw`?
///
/// The walk accumulates the weights of eligible connections in order and
/// picks the first one whose cumulative weight exceeds the draw.
pub open spec fn picks(s: Seq<InnerConn>, now_ms: u64, draw: int, i: int) -> bool {
    &&& 0 <= i < s.len()
    &&& s[i].breaker.allows(now_ms)
    &&& eligible_weight(s.take(i), now_ms) <= draw
    &&& draw < eligible_weight(s.take(i), now_ms) + s[i].weight
}

/// The weight sums are nonnegative, and the eligible part never exceeds
/// the whole.
pub proof fn lemma_weight_bounds(s: Seq<InnerConn>, now_ms: u64)
    ensures
        0 <= eligible_weight(s, now_ms),
        eligible_weight(s, now_ms) <= total_weight(s),
    decreases s.len(),
{
    if s.len() > 0 {
        lemma_weight_bounds(s.drop_last(), now_ms);
    }
}

/// Extending a prefix by one element extends both weight sums by that
/// element's contribution.
pub proof fn lemma_weight_take_step(s: Seq<InnerConn>, now_ms: u64, i: int)
    requires
        0 <= i < s.len(),
    ensures
        total_weight(s.take(i + 1)) == total_weight(s.take(i)) + s[i].weight,
        eligible_weight(s.take(i + 1), now_ms) == eligible_weight(s.take(i), now_ms)
            + if s[i].breaker.allows(now_ms) { s[i].weight as int } else { 0 },
{
    assert(s.take(i + 1).drop_last() =~= s.take(i));
    assert(s.take(i + 1).last() == s[i]);
}

/// A prefix never weighs more than the whole sequence.
pub proof fn lemma_weight_take_le(s: Seq<InnerConn>, now_ms: u64, i: int)
    requires
        0 <= i <= s.len(),
    ensures
        total_weight(s.take(i)) <= total_weight(s),
        eligible_weight(s.take(i), now_ms) <= eligible_weight(s, now_ms),
    decreases s.len() - i,
{
    if i == s.len() {
        assert(s.take(i) =~= s);
    } else {
        lemma_weight_take_step(s, now_ms, i);
        lemma_weight_take_le(s, now_ms, i + 1);
    }
}

/// Law: the eligible weight vanishes exactly when every breaker denies.
pub proof fn lemma_no_eligible(s: Seq<InnerConn>, now_ms: u64)
    requires
        forall|i: int| 0 <= i < s.len() ==> (#[trigger] s[i]).weight >= 1,
    ensures
        (eligible_weight(s, now_ms) == 0) <==> (forall|i: int|
            0 <= i < s.len() ==> !(#[trigger] s[i]).breaker.allows(now_ms)),
    decreases s.len(),
{
    if s.len() > 0 {
        assert(forall|i: int|
            0 <= i < s.drop_last().len() ==> #[trigger] s.drop_last()[i] == s[i]);
        lemma_no_eligible(s.drop_last(), now_ms);
        lemma_weight_bounds(s.drop_last(), now_ms);
        if eligible_weight(s, now_ms) == 0 {
            assert(!s.last().breaker.allows(now_ms));
            assert forall|i: int| 0 <= i < s.len() implies !(#[trigger] s[i]).breaker.allows(
                now_ms,
            ) by {
                if i < s.len() - 1 {
                    assert(s.drop_last()[i] == s[i]);
                }
            }
        }
    }
}

/// Law: selection respects the breakers — a connection whose breaker
/// currently denies is never picked, whatever the draw; and when every
/// connection's breaker denies, the eligible weight vanishes, which is
/// exactly the case in which `select` owes `NoAvailableConnection`.
pub proof fn lemma_select_respects_breakers(s: Seq<InnerConn>, now_ms: u64, draw: int, i: int)
    requires
        forall|k: int| 0 <= k < s.len() ==> (#[trigger] s[k]).wf(),
    ensures
        picks(s, now_ms, draw, i) ==> s[i].breaker.allows(now_ms),
        (forall|k: int| 0 <= k < s.len() ==> !(#[trigger] s[k]).breaker.allows(now_ms))
            ==> eligible_weight(s, now_ms) == 0,
{
    lemma_no_eligible(s, now_ms);
}

/// Law: one draw picks exactly one connection — the cumulative-weight walk
/// is deterministic for a given pool state, time and draw.
pub proof fn lemma_picks_unique(s: Seq<InnerConn>, now_ms: u64, draw: int, i: int, j: int)
    requires
        picks(s, now_ms, draw, i),
        picks(s, now_ms, draw, j),
    ensures
        i == j,
{
    if i < j {
        lemma_weight_take_step(s, now_ms, i);
        assert(s.take(j).take(i + 1) =~= s.take(i + 1));
        lemma_weight_take_le(s.take(j), now_ms, i + 1);
    }
    if j < i {
        lemma_weight_take_step(s, now_ms, j);
        assert(s.take(i).take(j + 1) =~= s.take(j + 1));
        lemma_weight_take_le(s.take(i), now_ms, j + 1);
    }
}

/// Replacing one connection swaps exactly its weight in the total.
pub proof fn lemma_total_weight_update(s: Seq<InnerConn>, i: int, c: InnerConn)
    requires
        0 <= i < s.len(),
    ensures
        total_weight(s.update(i, c)) == total_weight(s) - s[i].weight + c.weight,
    decreases s.len(),
{
    if i == s.len() - 1 {
        assert(s.update(i, c).drop_last() =~= s.drop_last());
    } else {
        assert(s.update(i, c).drop_last() =~= s.drop_last().update(i, c));
        lemma_total_weight_update(s.drop_last(), i, c);
    }
}

/// Removing one connection removes exactly its weight from the total.
pub proof fn lemma_total_weight_remove(s: Seq<InnerConn>, i: int)
    requires
        0 <= i < s.len(),
    ensures
        total_weight(s.remove(i)) == total_weight(s) - s[i].weight,
    decreases s.len(),
{
    if i == s.len() - 1 {
        assert(s.remove(i) =~= s.drop_last());
    } else {
        assert(s.remove(i).drop_last() =~= s.drop_last().remove(i));
        assert(s.remove(i).last() == s.last());
        lemma_total_weight_remove(s.drop_last(), i);
    }
}

/// The connection pool manager.
///
/// It owns every connection exclusively; connection ids are unique and
/// strictly increasing by position, which makes selection deterministic
/// under a seeded random source.
pub struct ConnManage {
    pub conns: Vec<InnerConn>,
    /// The id the next added connection will get.
    pub next_id: u32,
    /// Breaker settings handed to every new connection.
    pub breaker_config: BreakerConfig,
    /// Client identity copied into every new connection.
    pub client_info: ClientInfo,
    /// Seeded source of selection draws.
    pub rng: SeededRng,
}

impl ConnManage {
    /// Internal invariant, established by `new` and preserved by every
    /// operation.
    pub open spec fn wf(self) -> bool {
        &&& self.breaker_config.wf()
        &&& (forall|i: int| 0 <= i < self.conns@.len() ==> (#[trigger] self.conns@[i]).wf())
        &&& (forall|i: int|
            0 <= i < self.conns@.len() ==> (#[trigger] self.conns@[i]).id < self.next_id)
        &&& (forall|i: int, j: int|
            0 <= i < j < self.conns@.len() ==> (#[trigger] self.conns@[i]).id
                < (#[trigger] self.conns@[j]).id)
        &&& total_weight(self.conns@) <= u64::MAX
    }

    /// A manager with no connections yet.
    pub fn new(breaker_config: BreakerConfig, client_info: ClientInfo, seed: u64) -> (r:
        ConnManage)
        requires
            breaker_config.wf(),
        ensures
            r.wf(),
            r.conns@.len() == 0,
            r.next_id == 0,
            r.breaker_config == breaker_config,
            r.client_info == client_info,
            r.rng.state == seed,
    {
        ConnManage {
            conns: Vec::new(),
            next_id: 0,
            breaker_config,
            client_info,
            rng: SeededRng::new(seed),
        }
    }

    /// Add one backend server: a fresh connection with a fresh id, default
    /// weight one and a closed breaker. Returns the new id.
    pub fn add(&mut self, host_info: HostInfo, support_grpc: bool) -> (r: u32)
        requires
            old(self).wf(),
            old(self).next_id < u32::MAX,
            total_weight(old(self).conns@) + 1 <= u64::MAX,
        ensures
            final(self).wf(),
            r == old(self).next_id,
            final(self).next_id == old(self).next_id + 1,
            final(self).conns@.len() == old(self).conns@.len() + 1,
            forall|i: int|
                0 <= i < old(self).conns@.len() ==> final(self).conns@[i] == old(self).conns@[i],
            final(self).conns@.last().id == r,
            final(self).conns@.last().weight == 1,
            final(self).conns@.last().host_info == host_info,
            final(self).conns@.last().support_grpc == support_grpc,
            final(self).conns@.last().channel is None,
            final(self).conns@.last().breaker.state is Closed,
            final(self).conns@.last().breaker.config == old(self).breaker_config,
            final(self).rng == old(self).rng,
            final(self).breaker_config == old(self).breaker_config,
            final(self).client_info == old(self).client_info,
    {
        let id = self.next_id;
        let client_info = self.client_info.duplicate();
        let conn = InnerConn::new(id, host_info, support_grpc, self.breaker_config, client_info);
        self.next_id = self.next_id + 1;
        proof {
            assert(self.conns@.push(conn).drop_last() =~= self.conns@);
        }
        self.conns.push(conn);
        id
    }

    /// Configure the relative selection weight of one connection.
    /// Returns whether the id was in the pool.
    pub fn set_weight(&mut self, id: u32, weight: u64) -> (r: bool)
        requires
            old(self).wf(),
            weight >= 1,
            total_weight(old(self).conns@) + weight <= u64::MAX,
        ensures
            final(self).wf(),
            final(self).next_id == old(self).next_id,
            final(self).breaker_config == old(self).breaker_config,
            final(self).client_info == old(self).client_info,
            final(self).rng == old(self).rng,
            r <==> exists|i: int|
                0 <= i < old(self).conns@.len() && (#[trigger] old(self).conns@[i]).id == id,
            !r ==> final(self).conns@ == old(self).conns@,
            r ==> exists|i: int|
                {
                    &&& 0 <= i < old(self).conns@.len()
                    &&& (#[trigger] old(self).conns@[i]).id == id
                    &&& final(self).conns@ == old(self).conns@.update(
                        i,
                        (InnerConn { weight, ..old(self).conns@[i] }),
                    )
                },
    {
        let ghost s = self.conns@;
        let idx = match self.find_index(id) {
            Some(idx) => idx,
            None => {
                return false;
            },
        };
        let mut c = self.conns.remove(idx);
        c.weight = weight;
        proof {
            assert(s.remove(idx as int).insert(idx as int, c) =~= s.update(idx as int, c));
            lemma_total_weight_update(s, idx as int, c);
        }
        self.conns.insert(idx, c);
        true
    }

    /// Position of the connection with this id, if it is in the pool.
    fn find_index(&self, id: u32) -> (r: Option<usize>)
        ensures
            r matches Some(i) ==> i < self.conns@.len() && self.conns@[i as int].id == id,
            r is None ==> forall|i: int|
                0 <= i < self.conns@.len() ==> (#[trigger] self.conns@[i]).id != id,
    {
        let n = self.conns.len();
        let mut i: usize = 0;
        while i < n
            invariant
                n == self.conns@.len(),
                0 <= i <= n,
                forall|k: int| 0 <= k < i ==> (#[trigger] self.conns@[k]).id != id,
            decreases n - i,
        {
            if self.conns[i].id == id {
                return Some(i);
            }
            i = i + 1;
        }
        None
    }

    /// Pick one connection among those whose breaker currently admits, with
    /// probability proportional to its weight.
    ///
    /// The draw is one step of the seeded random source, reduced to the
    /// eligible weight; the walk over the cumulative weights picks the
    /// connection, deterministically for a given seed and pool state. A
    /// picked connection always admits (`allows`); if no connection does,
    /// the selection fails with `NoAvailableConnection` and changes no
    /// state at all.
    #[verifier::rlimit(50)]
    #[verifier::loop_isolation(false)]
    pub fn select(&mut self, now_ms: u64) -> (r: Result<u32, PoolError>)
        requires
            old(self).wf(),
        ensures
            final(self).wf(),
            final(self).conns@ == old(self).conns@,
            final(self).next_id == old(self).next_id,
            final(self).breaker_config == old(self).breaker_config,
            final(self).client_info == old(self).client_info,
            eligible_weight(old(self).conns@, now_ms) == 0 ==> r == Err::<u32, PoolError>(
                PoolError::NoAvailableConnection,
            ) && final(self).rng == old(self).rng,
            eligible_weight(old(self).conns@, now_ms) > 0 ==> {
                &&& final(self).rng.state == rng_next_state(old(self).rng.state)
                &&& exists|i: int|
                    #[trigger] picks(
                        old(self).conns@,
                        now_ms,
                        rng_output(old(self).rng.state) as int % eligible_weight(
                            old(self).conns@,
                            now_ms,
                        ),
                        i,
                    ) && r == Ok::<u32, PoolError>(old(self).conns@[i].id)
            },
    {
        let ghost s = self.conns@;
        let n = self.conns.len();
        let mut total: u64 = 0;
        let mut i: usize = 0;
        while i < n
            invariant
                0 <= i <= n,
                total == eligible_weight(s.take(i as int), now_ms),
            decreases n - i,
        {
            proof {
                lemma_weight_take_step(s, now_ms, i as int);
                lemma_weight_take_le(s, now_ms, i as int + 1);
                lemma_weight_bounds(s, now_ms);
            }
            let c = &self.conns[i];
            if c.breaker.check_allow(now_ms) {
                total = total + c.weight;
            }
            i = i + 1;
        }
        proof {
            assert(s.take(n as int) =~= s);
        }
        if total == 0 {
            return Err(PoolError::NoAvailableConnection);
        }
        let draw = self.rng.next_u64() % total;
        let mut acc: u64 = 0;
        let mut j: usize = 0;
        while j < n
            invariant
                0 <= j <= n,
                acc == eligible_weight(s.take(j as int), now_ms),
                acc <= draw,
            decreases n - j,
        {
            proof {
                lemma_weight_take_step(s, now_ms, j as int);
                lemma_weight_take_le(s, now_ms, j as int + 1);
                lemma_weight_bounds(s, now_ms);
            }
            let c = &self.conns[j];
            if c.breaker.check_allow(now_ms) {
                if draw < acc + c.weight {
                    proof {
                        assert(picks(s, now_ms, draw as int, j as int));
                    }
                    return Ok(c.id);
                }
                acc = acc + c.weight;
            }
            j = j + 1;
        }
        proof {
            assert(s.take(n as int) =~= s);
            assert(false);
        }
        vstd::pervasive::unreached()
    }

    /// How one routed request leaves the picked connection and what it
    /// returns: with a transport attached the request is admitted and the
    /// breaker takes its `allow` step; without one the request fails with
    /// `Unavailable` and that failure is fed into the breaker.
    pub open spec fn dispatch_outcome(
        s: Seq<InnerConn>,
        i: int,
        now_ms: u64,
        post: Seq<InnerConn>,
        r: Result<u32, PoolError>,
    ) -> bool {
        if s[i].channel is Some {
            &&& r == Ok::<u32, PoolError>(s[i].id)
            &&& post == s.update(
                i,
                (InnerConn { breaker: s[i].breaker.allow_step(now_ms), ..s[i] }),
            )
        } else {
            &&& r == Err::<u32, PoolError>(PoolError::Unavailable)
            &&& post == s.update(
                i,
                (InnerConn { breaker: s[i].breaker.record_step(false, now_ms), ..s[i] }),
            )
        }
    }

    /// Route one outgoing request: select an eligible connection, then
    /// admit the request on it.
    ///
    /// Returns the id of the connection the request is to be forwarded to;
    /// the caller reports the transport outcome back through
    /// `on_health_event`. The pool itself never retries on another
    /// connection.
    #[verifier::rlimit(50)]
    pub fn dispatch(&mut self, now_ms: u64) -> (r: Result<u32, PoolError>)
        requires
            old(self).wf(),
        ensures
            final(self).wf(),
            final(self).next_id == old(self).next_id,
            final(self).breaker_config == old(self).breaker_config,
            final(self).client_info == old(self).client_info,
            eligible_weight(old(self).conns@, now_ms) == 0 ==> r == Err::<u32, PoolError>(
                PoolError::NoAvailableConnection,
            ) && final(self).conns@ == old(self).conns@ && final(self).rng == old(self).rng,
            eligible_weight(old(self).conns@, now_ms) > 0 ==> {
                &&& final(self).rng.state == rng_next_state(old(self).rng.state)
                &&& exists|i: int|
                    #[trigger] picks(
                        old(self).conns@,
                        now_ms,
                        rng_output(old(self).rng.state) as int % eligible_weight(
                            old(self).conns@,
                            now_ms,
                        ),
                        i,
                    ) && Self::dispatch_outcome(
                        old(self).conns@,
                        i,
                        now_ms,
                        final(self).conns@,
                        r,
                    )
            },
    {
        let ghost s = self.conns@;
        let id = match self.select(now_ms) {
            Ok(id) => id,
            Err(e) => {
                return Err(e);
            },
        };
        proof {
            lemma_weight_bounds(s, now_ms);
            assert(eligible_weight(s, now_ms) > 0);
        }
        let ghost draw = rng_output(old(self).rng.state) as int % eligible_weight(s, now_ms);
        let ghost w = choose|i: int|
            #[trigger] picks(s, now_ms, draw, i) && Ok::<u32, PoolError>(s[i].id) == Ok::<
                u32,
                PoolError,
            >(id);
        let idx = match self.find_index(id) {
            Some(idx) => idx,
            None => {
                proof {
                    assert(s[w].id == id);
                }
                return vstd::pervasive::unreached();
            },
        };
        proof {
            assert(s[w].id == id);
            if idx as int != w {
                assert(s[idx as int].id == s[w].id);
                assert(false);
            }
        }
        let mut c = self.conns.remove(idx);
        let res = c.begin_dispatch(now_ms);
        let r: Result<u32, PoolError> = match res {
            Ok(()) => Ok(id),
            Err(_unavailable) => {
                c.record_outcome(false, now_ms);
                Err(PoolError::Unavailable)
            },
        };
        proof {
            assert(s.remove(idx as int).insert(idx as int, c) =~= s.update(idx as int, c));
        }
        self.conns.insert(idx, c);
        proof {
            lemma_total_weight_update(s, idx as int, c);
            assert(Self::dispatch_outcome(s, idx as int, now_ms, self.conns@, r));
        }
        r
    }

    /// Feed a transport worker's health report into the breaker of the
    /// connection it concerns. A report for an id that has already left the
    /// pool is silently dropped; that is expected, not an error.
    pub fn on_health_event(&mut self, id: u32, success: bool, now_ms: u64)
        requires
            old(self).wf(),
        ensures
            final(self).wf(),
            final(self).next_id == old(self).next_id,
            final(self).breaker_config == old(self).breaker_config,
            final(self).client_info == old(self).client_info,
            final(self).rng == old(self).rng,
            (forall|i: int| 0 <= i < old(self).conns@.len() ==> (#[trigger] old(self).conns@[i]).id
                != id) ==> final(self).conns@ == old(self).conns@,
            (exists|i: int|
                0 <= i < old(self).conns@.len() && (#[trigger] old(self).conns@[i]).id == id)
                ==> exists|i: int|
                {
                    &&& 0 <= i < old(self).conns@.len()
                    &&& (#[trigger] old(self).conns@[i]).id == id
                    &&& final(self).conns@ == old(self).conns@.update(
                        i,
                        (InnerConn {
                            breaker: old(self).conns@[i].breaker.record_step(success, now_ms),
                            ..old(self).conns@[i]
                        }),
                    )
                },
    {
        let ghost s = self.conns@;
        let idx = match self.find_index(id) {
            Some(idx) => idx,
            None => {
                return ;
            },
        };
        let mut c = self.conns.remove(idx);
        c.record_outcome(success, now_ms);
        proof {
            assert(s.remove(idx as int).insert(idx as int, c) =~= s.update(idx as int, c));
        }
        self.conns.insert(idx, c);
        proof {
            lemma_total_weight_update(s, idx as int, c);
        }
    }

    /// Close and remove the connection with this id. Returns whether it
    /// was in the pool; removing an unknown id changes nothing.
    pub fn remove(&mut self, id: u32) -> (r: bool)
        requires
            old(self).wf(),
        ensures
            final(self).wf(),
            final(self).next_id == old(self).next_id,
            final(self).breaker_config == old(self).breaker_config,
            final(self).client_info == old(self).client_info,
            final(self).rng == old(self).rng,
            r <==> exists|i: int|
                0 <= i < old(self).conns@.len() && (#[trigger] old(self).conns@[i]).id == id,
            !r ==> final(self).conns@ == old(self).conns@,
            r ==> exists|i: int|
                {
                    &&& 0 <= i < old(self).conns@.len()
                    &&& (#[trigger] old(self).conns@[i]).id == id
                    &&& final(self).conns@ == old(self).conns@.remove(i)
                },
    {
        let ghost s = self.conns@;
        let idx = match self.find_index(id) {
            Some(idx) => idx,
            None => {
                return false;
            },
        };
        let mut c = self.conns.remove(idx);
        let _ = c.close_grpc();
        proof {
            lemma_total_weight_remove(s, idx as int);
        }
        true
    }

    /// Initialize the transport of the connection with this id (the
    /// manager's lazy-attachment policy calls this before first use).
    /// Fails with `Unavailable` for an id not in the pool.
    pub fn init_conn(&mut self, id: u32) -> (r: Result<(), PoolError>)
        requires
            old(self).wf(),
        ensures
            final(self).wf(),
            final(self).next_id == old(self).next_id,
            final(self).breaker_config == old(self).breaker_config,
            final(self).client_info == old(self).client_info,
            final(self).rng == old(self).rng,
            (forall|i: int| 0 <= i < old(self).conns@.len() ==> (#[trigger] old(self).conns@[i]).id
                != id) ==> r == Err::<(), PoolError>(PoolError::Unavailable) && final(self).conns@
                == old(self).conns@,
            (exists|i: int|
                0 <= i < old(self).conns@.len() && (#[trigger] old(self).conns@[i]).id == id)
                ==> exists|i: int|
                {
                    &&& 0 <= i < old(self).conns@.len()
                    &&& (#[trigger] old(self).conns@[i]).id == id
                    &&& final(self).conns@ == old(self).conns@.update(
                        i,
                        final(self).conns@[i],
                    )
                    &&& old(self).conns@[i].init_step_ok(final(self).conns@[i], r)
                },
    {
        let ghost s = self.conns@;
        let idx = match self.find_index(id) {
            Some(idx) => idx,
            None => {
                return Err(PoolError::Unavailable);
            },
        };
        let mut c = self.conns.remove(idx);
        let r = c.init_grpc();
        proof {
            assert(s.remove(idx as int).insert(idx as int, c) =~= s.update(idx as int, c));
        }
        self.conns.insert(idx, c);
        proof {
            lemma_total_weight_update(s, idx as int, c);
            assert(self.conns@[idx as int] == c);
        }
        r
    }
}

} // verus!
