//! Bookkeeping for promises whose answer comes from the host.
//!
//! A prepared promise is known by a random id. Its resolver runs off the
//! engine thread; the engine promise is made when the value is first handed
//! to the engine. Whichever of the two comes first leaves its part in the
//! answer table, and the one that comes second settles the engine promise.
//! The caller holds one lock around each operation here, so each is a single
//! read-modify-write of the table.

use crate::registry::CachedObjectRegistry;
use crate::table::IdTable;
use vstd::prelude::*;

verus! {

/// Relies on rand's `OsRng` and its `RngCore::try_fill_bytes`: eight bytes
/// from the operating system's random source, or an error, which it returns
/// rather than panicking. Nothing is known of which value comes out.
#[verifier::external_body]
fn draw_random_id() -> (r: Option<u64>) {
    let mut bytes = [0u8; 8];
    match rand::RngCore::try_fill_bytes(&mut rand::rngs::OsRng, &mut bytes) {
        Ok(()) => Some(u64::from_le_bytes(bytes)),
        Err(_) => None,
    }
}

/// How many times `prepare` draws a random id before it gives up on the
/// random source.
pub const MAX_DRAWS: u32 = 64;

/// The state of one prepared promise.
pub enum PromiseAnswer<V, W> {
    /// Neither the resolver nor the engine has got to it yet.
    Pending,
    /// The resolver finished first; its result waits for the engine.
    AnsweredByHost(Result<V, String>),
    /// The engine promise exists, rooted under this cached object id; the
    /// second field reaches the runtime that owns it.
    AwaitingEngine(i32, W),
}

/// What to do once a resolver has finished.
pub enum ResolverOutcome<V, W> {
    /// The result was stored for the engine to pick up.
    Stored,
    /// Settle the engine promise cached under `cached_id` with `result`, on
    /// the engine thread of `runtime` (if it still exists).
    Settle { cached_id: i32, runtime: W, result: Result<V, String> },
    /// Nobody waits for this result any more (the value was released, or
    /// the promise was already answered): it is handed back unused.
    Discarded(Result<V, String>),
}

/// What the engine thread does when it turns a prepared promise into an
/// engine promise.
pub enum EngineStep<V> {
    /// No answer yet: make the promise, root and cache it, and record it with
    /// `await_engine`.
    CreatePending,
    /// The answer is here: make the promise and settle it with this result
    /// at once.
    SettleNow(Result<V, String>),
}

/// Whether the engine may make the promise of `id` now: the id is known
/// and its engine promise was not made already. Anything else is a
/// caller's error (a released value, or one handed to the engine twice).
pub open spec fn can_materialize<V, W>(m: Map<u64, PromiseAnswer<V, W>>, id: u64) -> bool {
    m.contains_key(id) && !resolver_settles(m, id)
}

pub open spec fn is_pending<V, W>(m: Map<u64, PromiseAnswer<V, W>>, id: u64) -> bool {
    m.contains_key(id) && m[id] is Pending
}

/// Whether a finished resolver settles the engine promise of `id`.
pub open spec fn resolver_settles<V, W>(m: Map<u64, PromiseAnswer<V, W>>, id: u64) -> bool {
    m.contains_key(id) && m[id] is AwaitingEngine
}

/// The table after the resolver of `id` finished with `r`.
pub open spec fn after_resolver<V, W>(
    m: Map<u64, PromiseAnswer<V, W>>,
    id: u64,
    r: Result<V, String>,
) -> Map<u64, PromiseAnswer<V, W>> {
    if is_pending(m, id) {
        m.insert(id, PromiseAnswer::AnsweredByHost(r))
    } else if resolver_settles(m, id) {
        m.remove(id)
    } else {
        m
    }
}

/// Whether materializing `id` in the engine settles its promise at once.
pub open spec fn engine_settles<V, W>(m: Map<u64, PromiseAnswer<V, W>>, id: u64) -> bool {
    m.contains_key(id) && m[id] is AnsweredByHost
}

/// The table after the engine thread looked `id` up to materialize it.
pub open spec fn after_engine_lookup<V, W>(m: Map<u64, PromiseAnswer<V, W>>, id: u64) -> Map<
    u64,
    PromiseAnswer<V, W>,
> {
    if engine_settles(m, id) {
        m.remove(id)
    } else {
        m
    }
}

/// The table after the engine promise of `id` was recorded.
pub open spec fn after_await<V, W>(
    m: Map<u64, PromiseAnswer<V, W>>,
    id: u64,
    cached_id: i32,
    runtime: W,
) -> Map<u64, PromiseAnswer<V, W>> {
    if is_pending(m, id) {
        m.insert(id, PromiseAnswer::AwaitingEngine(cached_id, runtime))
    } else {
        m
    }
}

/// The table after the value of `id` was released. Unless the engine holds
/// its promise already, nothing can reach the entry any more, so it goes,
/// whether or not the resolver has answered.
pub open spec fn after_release<V, W>(m: Map<u64, PromiseAnswer<V, W>>, id: u64) -> Map<
    u64,
    PromiseAnswer<V, W>,
> {
    if resolver_settles(m, id) {
        m
    } else {
        m.remove(id)
    }
}

/// The table after the values of `ids` were released, in order.
pub open spec fn after_releases<V, W>(m: Map<u64, PromiseAnswer<V, W>>, ids: Seq<u64>) -> Map<
    u64,
    PromiseAnswer<V, W>,
>
    decreases ids.len(),
{
    if ids.len() == 0 {
        m
    } else {
        after_release(after_releases(m, ids.drop_last()), ids.last())
    }
}

/// Releasing the ids of `a` and then those of `b` is releasing those of
/// `a + b`.
pub proof fn lemma_after_releases_concat<V, W>(
    m: Map<u64, PromiseAnswer<V, W>>,
    a: Seq<u64>,
    b: Seq<u64>,
)
    ensures
        after_releases(m, a + b) == after_releases(after_releases(m, a), b),
    decreases b.len(),
{
    if b.len() == 0 {
        assert(a + b =~= a);
    } else {
        lemma_after_releases_concat(m, a, b.drop_last());
        assert((a + b).drop_last() =~= a + b.drop_last());
        assert((a + b).last() == b.last());
    }
}

/// The answer table of all prepared promises.
pub struct PromiseAnswers<V, W> {
    table: IdTable<PromiseAnswer<V, W>>,
}

impl<V, W> PromiseAnswers<V, W> {
    pub closed spec fn view(&self) -> Map<u64, PromiseAnswer<V, W>> {
        self.table@
    }

    pub closed spec fn wf(&self) -> bool {
        self.table.wf()
    }

    pub fn new() -> (r: Self)
        ensures
            r.wf(),
            r@ == Map::<u64, PromiseAnswer<V, W>>::empty(),
    {
        PromiseAnswers { table: IdTable::new() }
    }

    /// Number of prepared promises still tracked.
    pub fn len(&self) -> (r: usize)
        requires
            self.wf(),
        ensures
            r == self@.len(),
    {
        self.table.len()
    }

    /// Records a new prepared promise under a fresh id, not in use: a random
    /// one, drawn again while the draw fails or hits an id in use. Only if
    /// `MAX_DRAWS` draws in a row fail does it take the first free id.
    pub fn prepare(&mut self) -> (id: u64)
        requires
            old(self).wf(),
        ensures
            final(self).wf(),
            !old(self)@.contains_key(id),
            final(self)@ == old(self)@.insert(id, PromiseAnswer::Pending),
    {
        let mut tries: u32 = 0;
        let mut found: Option<u64> = None;
        while tries < MAX_DRAWS && found.is_none()
            invariant
                self.wf(),
                match found {
                    Some(c) => !self@.contains_key(c),
                    None => true,
                },
            decreases MAX_DRAWS - tries,
        {
            if let Some(drawn) = draw_random_id() {
                if !self.table.contains(drawn) {
                    found = Some(drawn);
                }
            }
            tries += 1;
        }
        let id = match found {
            Some(c) => c,
            None => self.table.first_free_id(),
        };
        self.table.insert_new(id, PromiseAnswer::Pending);
        id
    }

    /// The resolver of `id` finished with `result`. If the engine promise is
    /// already waiting, its entry leaves the table and the caller settles it;
    /// if not, the result is stored for the engine to pick up.
    pub fn resolver_done(&mut self, id: u64, result: Result<V, String>) -> (r: ResolverOutcome<
        V,
        W,
    >)
        requires
            old(self).wf(),
        ensures
            final(self).wf(),
            final(self)@ == after_resolver(old(self)@, id, result),
            resolver_settles(old(self)@, id) <==> r is Settle,
            is_pending(old(self)@, id) ==> r is Stored,
            !is_pending(old(self)@, id) && !resolver_settles(old(self)@, id) ==> r == ResolverOutcome::<
                V,
                W,
            >::Discarded(result),
            match r {
                ResolverOutcome::Settle { cached_id, runtime, result: res } => {
                    &&& old(self)@[id] == PromiseAnswer::<V, W>::AwaitingEngine(cached_id, runtime)
                    &&& res == result
                },
                _ => true,
            },
    {
        match self.table.get(id) {
            Some(PromiseAnswer::Pending) => {
                self.table.remove(id);
                self.table.insert_new(id, PromiseAnswer::AnsweredByHost(result));
                proof {
                    assert(self@ =~= after_resolver(old(self)@, id, result));
                }
                ResolverOutcome::Stored
            },
            Some(PromiseAnswer::AwaitingEngine(_, _)) => {
                match self.table.remove(id) {
                    Some(PromiseAnswer::AwaitingEngine(cached_id, runtime)) => {
                        ResolverOutcome::Settle { cached_id, runtime, result }
                    },
                    _ => ResolverOutcome::Discarded(result),
                }
            },
            _ => ResolverOutcome::Discarded(result),
        }
    }

    /// Whether the engine may make the promise of `id` now (see
    /// `can_materialize`); callers check it before `engine_lookup`.
    pub fn is_materializable(&self, id: u64) -> (r: bool)
        requires
            self.wf(),
        ensures
            r == can_materialize(self@, id),
    {
        match self.table.get(id) {
            Some(PromiseAnswer::AwaitingEngine(_, _)) => false,
            Some(_) => true,
            None => false,
        }
    }

    /// The engine thread materializes the promise of `id`: if the answer is
    /// already here, its entry leaves the table and the promise is settled
    /// at once; if it is still pending, the table is left for `await_engine`.
    pub fn engine_lookup(&mut self, id: u64) -> (r: EngineStep<V>)
        requires
            old(self).wf(),
            can_materialize(old(self)@, id),
        ensures
            final(self).wf(),
            final(self)@ == after_engine_lookup(old(self)@, id),
            engine_settles(old(self)@, id) <==> r is SettleNow,
            is_pending(old(self)@, id) <==> r is CreatePending,
            match r {
                EngineStep::SettleNow(res) => old(self)@[id] == PromiseAnswer::<
                    V,
                    W,
                >::AnsweredByHost(res),
                _ => true,
            },
    {
        match self.table.get(id) {
            Some(PromiseAnswer::AnsweredByHost(_)) => {
                match self.table.remove(id) {
                    Some(PromiseAnswer::AnsweredByHost(res)) => EngineStep::SettleNow(res),
                    _ => vstd::pervasive::unreached(),
                }
            },
            _ => EngineStep::CreatePending,
        }
    }

    /// Records the engine promise of a still pending `id`, rooted under
    /// `cached_id`, so that the resolver settles it. Returns whether it was
    /// recorded.
    pub fn await_engine(&mut self, id: u64, cached_id: i32, runtime: W) -> (r: bool)
        requires
            old(self).wf(),
        ensures
            final(self).wf(),
            r == is_pending(old(self)@, id),
            final(self)@ == after_await(old(self)@, id, cached_id, runtime),
    {
        match self.table.get(id) {
            Some(PromiseAnswer::Pending) => {
                self.table.remove(id);
                self.table.insert_new(id, PromiseAnswer::AwaitingEngine(cached_id, runtime));
                proof {
                    assert(self@ =~= after_await(old(self)@, id, cached_id, runtime));
                }
                true
            },
            _ => false,
        }
    }

    /// Records the engine promise made for the still pending `id`: its
    /// handle is retained in `reg` under a fresh id, and that id is recorded
    /// for the resolver to settle. If `id` is not pending, or the registry
    /// has no id left, nothing changes and the handle is handed back.
    pub fn record_engine_promise<H>(
        &mut self,
        reg: &mut CachedObjectRegistry<H>,
        id: u64,
        promise: H,
        runtime: W,
    ) -> (r: Result<i32, H>)
        requires
            old(self).wf(),
            old(reg).wf(),
        ensures
            final(self).wf(),
            final(reg).wf(),
            r is Ok <==> is_pending(old(self)@, id) && old(reg).next() < i32::MAX,
            match r {
                Ok(pid) => {
                    &&& !old(reg)@.contains_key(pid)
                    &&& final(reg)@ == old(reg)@.insert(pid, promise)
                    &&& final(self)@ == old(self)@.insert(
                        id,
                        PromiseAnswer::AwaitingEngine(pid, runtime),
                    )
                },
                Err(h) => {
                    &&& h == promise
                    &&& *final(reg) == *old(reg)
                    &&& final(self)@ == old(self)@
                },
            },
    {
        match self.table.get(id) {
            Some(PromiseAnswer::Pending) => {},
            _ => {
                return Err(promise);
            },
        }
        match reg.register(promise) {
            Ok(pid) => {
                self.await_engine(id, pid, runtime);
                Ok(pid)
            },
            Err(h) => Err(h),
        }
    }

    /// The value of `id` is gone. If the engine never saw it, its entry is
    /// removed, pending or answered, so that nothing is left behind; an
    /// entry whose engine promise waits for the resolver stays.
    pub fn release(&mut self, id: u64)
        requires
            old(self).wf(),
        ensures
            final(self).wf(),
            final(self)@ == after_release(old(self)@, id),
    {
        match self.table.get(id) {
            Some(PromiseAnswer::AwaitingEngine(_, _)) => {},
            _ => {
                self.table.remove(id);
            },
        }
    }
}

/// Once a step has settled the engine promise of `id`, its entry is gone, so
/// no later step on `id` settles it again.
proof fn lemma_gone_never_settles<V, W>(m: Map<u64, PromiseAnswer<V, W>>, id: u64)
    requires
        !m.contains_key(id),
    ensures
        !resolver_settles(m, id),
        !engine_settles(m, id),
        !is_pending(m, id),
{
}

/// A prepared promise is settled exactly once, whichever of the resolver and
/// the engine gets to it first. Starting from a pending entry: when the
/// resolver finishes first, its step settles nothing and the engine's lookup
/// settles; when the engine records its promise first, its steps settle
/// nothing and the resolver's step settles. Either way the entry is then
/// gone, so nothing settles it again.
pub proof fn lemma_settled_exactly_once<V, W>(
    m: Map<u64, PromiseAnswer<V, W>>,
    id: u64,
    result: Result<V, String>,
    cached_id: i32,
    runtime: W,
)
    requires
        is_pending(m, id),
    ensures
        !resolver_settles(m, id),
        !engine_settles(m, id),
        can_materialize(m, id),
        can_materialize(after_resolver(m, id, result), id),
        !can_materialize(after_await(after_engine_lookup(m, id), id, cached_id, runtime), id),
        ({
            let m1 = after_resolver(m, id, result);
            &&& engine_settles(m1, id)
            &&& !after_engine_lookup(m1, id).contains_key(id)
        }),
        ({
            let m1 = after_await(after_engine_lookup(m, id), id, cached_id, runtime);
            &&& resolver_settles(m1, id)
            &&& !after_resolver(m1, id, result).contains_key(id)
        }),
{
    let m1 = after_resolver(m, id, result);
    lemma_gone_never_settles(after_engine_lookup(m1, id), id);
    let m2 = after_await(after_engine_lookup(m, id), id, cached_id, runtime);
    lemma_gone_never_settles(after_resolver(m2, id, result), id);
}

/// Releasing a prepared promise that the engine never saw leaves the table
/// as it was before the promise was prepared, whether or not its resolver
/// has answered meanwhile.
pub proof fn lemma_release_restores<V, W>(
    base: Map<u64, PromiseAnswer<V, W>>,
    id: u64,
    result: Result<V, String>,
)
    requires
        !base.contains_key(id),
    ensures
        after_release(base.insert(id, PromiseAnswer::Pending), id) == base,
        after_release(after_resolver(base.insert(id, PromiseAnswer::Pending), id, result), id)
            == base,
{
    assert(base.insert(id, PromiseAnswer::Pending).remove(id) =~= base);
    assert(base.insert(id, PromiseAnswer::Pending).insert(id, PromiseAnswer::AnsweredByHost(result)).remove(
        id,
    ) =~= base);
}

} // verus!
