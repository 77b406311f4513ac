//! What holds of a pool over a history of operations.

use crate::backend::{view_of, Backend, BackendView};
use crate::balancer::LoadBalancingMode;
use crate::pool::{Acquisition, PoolView};
use crate::pool_laws::{law_leased_iff_available, law_limit_is_kept};
use crate::state::lists;
use vstd::prelude::*;

verus! {

/// An operation on a pool, with what it returned.
pub enum PoolEvent {
    /// A backend was added.
    Added(Backend),
    /// The backend with an id was to be removed, and was reported on if there was one.
    Removed(Seq<char>, Option<BackendView>),
    /// A request asked for a backend.
    Asked(LoadBalancingMode, Acquisition),
    /// A lease of the backend with an id was given back.
    Released(Seq<char>),
}

/// Whether an operation on a pool that holds `before` leaves `after`.
pub open spec fn pool_step(before: PoolView, event: PoolEvent, after: PoolView) -> bool {
    match event {
        PoolEvent::Added(backend) => after == before.added(backend),
        PoolEvent::Removed(id, Some(view)) => before.removes(id, view, after),
        PoolEvent::Removed(id, None) => !before.knows(id) && after == before,
        PoolEvent::Asked(mode, outcome) => before.answers(mode, outcome, after),
        PoolEvent::Released(id) => before.releases(id, after),
    }
}

/// Whether the operations lead through the states, from the first one to the last one.
pub open spec fn pool_runs(states: Seq<PoolView>, events: Seq<PoolEvent>) -> bool {
    &&& states.len() == events.len() + 1
    &&& forall|i: int|
        0 <= i < events.len() ==> pool_step(states[i], #[trigger] events[i], states[i + 1])
}

/// Whether an operation adds a backend with the given id.
pub open spec fn adds_id(event: PoolEvent, id: Seq<char>) -> bool {
    event matches PoolEvent::Added(backend) && backend.id@ == id
}

/// Whether a backend with the given id was ever added.
pub open spec fn was_added(events: Seq<PoolEvent>, id: Seq<char>) -> bool {
    exists|i: int| 0 <= i < events.len() && adds_id(#[trigger] events[i], id)
}

/// Whether no id is used again, not even that of a backend that was removed.
pub open spec fn ids_are_fresh(events: Seq<PoolEvent>) -> bool {
    forall|i: int|
        #![trigger events[i]]
        0 <= i < events.len() ==> (events[i] matches PoolEvent::Added(backend)
            ==> !was_added(events.take(i), backend.id@))
}

/// How many leases of the backend with the given id were taken and not given back.
pub open spec fn outstanding(events: Seq<PoolEvent>, id: Seq<char>) -> int
    decreases events.len(),
{
    if events.len() == 0 {
        0
    } else {
        outstanding(events.drop_last(), id) + match events.last() {
            PoolEvent::Asked(_, Acquisition::Leased(lease)) => if lease@.id@ == id {
                1int
            } else {
                0
            },
            PoolEvent::Released(released) => if released == id {
                -1int
            } else {
                0
            },
            _ => 0,
        }
    }
}

/// Whether only leases are given back that were taken, each of them once, and there are never more
/// of one backend than can be counted.
pub open spec fn leases_are_kept(events: Seq<PoolEvent>) -> bool {
    &&& forall|i: int|
        #![trigger events[i]]
        0 <= i < events.len() ==> (events[i] matches PoolEvent::Released(id)
            ==> outstanding(events.take(i), id) > 0)
    &&& forall|i: int, id: Seq<char>|
        0 <= i <= events.len() ==> #[trigger] outstanding(events.take(i), id) <= usize::MAX
}

/// Every operation leaves a well-formed pool.
pub proof fn law_operations_keep_the_pool_valid(before: PoolView, event: PoolEvent, after: PoolView)
    requires
        before.wf(),
        pool_step(before, event, after),
    ensures
        after.wf(),
{
    match event {
        PoolEvent::Added(_) => {},
        PoolEvent::Removed(id, Some(view)) => {
            let i = choose|i: int| #[trigger] before.finds(id, i) && after == before.removed(i);
            assert(before.has_id(id, i));
            assert forall|j: int| 0 <= j < after.entries.len() implies (
            #[trigger] after.entries[j]).within_limit() by {
                assert(before.entries[if j < i { j } else { j + 1 }].within_limit());
            }
        },
        PoolEvent::Removed(_, None) => {},
        PoolEvent::Asked(mode, outcome) => {
            law_limit_is_kept(before, mode, outcome, after);
        },
        PoolEvent::Released(id) => {
            if before.knows(id) {
                let i = choose|i: int| #[trigger] before.finds(id, i) && after == before.released(i);
                assert(before.has_id(id, i));
                assert forall|j: int| 0 <= j < after.entries.len() implies (
                #[trigger] after.entries[j]).within_limit() by {
                    assert(before.entries[j].within_limit());
                }
            }
        },
    }
}

/// Whether the ids of the backends are different from each other and were all added, and the count
/// of each backend is the number of its leases.
pub open spec fn counted(pool: PoolView, events: Seq<PoolEvent>) -> bool {
    &&& pool.wf()
    &&& forall|i: int, j: int|
        0 <= i < pool.entries.len() && 0 <= j < pool.entries.len() && i != j ==> (
        #[trigger] pool.entries[i]).backend.id@ != (#[trigger] pool.entries[j]).backend.id@
    &&& forall|i: int|
        0 <= i < pool.entries.len() ==> {
            &&& was_added(events, (#[trigger] pool.entries[i]).backend.id@)
            &&& pool.entries[i].active == outstanding(events, pool.entries[i].backend.id@)
        }
    &&& forall|id: Seq<char>|
        !was_added(events, id) ==> #[trigger] outstanding(events, id) == 0
}

pub(crate) proof fn lemma_step_counts(
    before: PoolView,
    events: Seq<PoolEvent>,
    event: PoolEvent,
    after: PoolView,
)
    requires
        counted(before, events),
        pool_step(before, event, after),
        event matches PoolEvent::Added(backend) ==> !was_added(events, backend.id@),
        event matches PoolEvent::Released(id) ==> outstanding(events, id) > 0,
        forall|id: Seq<char>| #[trigger] outstanding(events.push(event), id) <= usize::MAX,
    ensures
        counted(after, events.push(event)),
{
    let all = events.push(event);
    law_operations_keep_the_pool_valid(before, event, after);
    assert(all.drop_last() =~= events);
    assert forall|id: Seq<char>| was_added(events, id) implies was_added(all, id) by {
        let i = choose|i: int| 0 <= i < events.len() && adds_id(#[trigger] events[i], id);
        assert(adds_id(all[i], id));
    }
    assert forall|id: Seq<char>| !was_added(all, id) implies #[trigger] outstanding(all, id)
        == 0 by {
        assert(outstanding(events, id) == 0);
        if let PoolEvent::Asked(mode, Acquisition::Leased(lease)) = event {
            let i = choose|i: int| #[trigger] before.picks(mode, i) && lease@
                == before.entries[i].backend;
            assert(before.available(i));
            assert(was_added(events, before.entries[i].backend.id@));
        }
    }
    match event {
        PoolEvent::Added(backend) => {
            assert(adds_id(all[events.len() as int], backend.id@));
            assert(outstanding(events, backend.id@) == 0);
            assert forall|i: int| 0 <= i < after.entries.len() implies {
                &&& was_added(all, (#[trigger] after.entries[i]).backend.id@)
                &&& after.entries[i].active == outstanding(all, after.entries[i].backend.id@)
            } by {
                if i < before.entries.len() {
                    assert(after.entries[i] == before.entries[i]);
                }
            }
            assert forall|i: int, j: int|
                0 <= i < after.entries.len() && 0 <= j < after.entries.len() && i != j implies (
            #[trigger] after.entries[i]).backend.id@ != (
            #[trigger] after.entries[j]).backend.id@ by {
                let n = before.entries.len();
                if i < n {
                    assert(was_added(events, before.entries[i].backend.id@));
                }
                if j < n {
                    assert(was_added(events, before.entries[j].backend.id@));
                }
            }
        },
        PoolEvent::Removed(id, Some(view)) => {
            let k = choose|k: int| #[trigger] before.finds(id, k) && after == before.removed(k);
            assert(before.has_id(id, k));
            assert forall|i: int| 0 <= i < after.entries.len() implies {
                &&& was_added(all, (#[trigger] after.entries[i]).backend.id@)
                &&& after.entries[i].active == outstanding(all, after.entries[i].backend.id@)
            } by {
                assert(after.entries[i] == before.entries[if i < k { i } else { i + 1 }]);
            }
            assert forall|i: int, j: int|
                0 <= i < after.entries.len() && 0 <= j < after.entries.len() && i != j implies (
            #[trigger] after.entries[i]).backend.id@ != (
            #[trigger] after.entries[j]).backend.id@ by {
                assert(after.entries[i] == before.entries[if i < k { i } else { i + 1 }]);
                assert(after.entries[j] == before.entries[if j < k { j } else { j + 1 }]);
            }
        },
        PoolEvent::Removed(_, None) => {},
        PoolEvent::Asked(mode, outcome) => {
            if let Acquisition::Leased(lease) = outcome {
                let k = choose|k: int|
                    {
                        &&& #[trigger] before.picks(mode, k)
                        &&& lease@ == before.entries[k].backend
                        &&& after == before.leased(mode, k)
                    };
                assert(before.available(k));
                assert(outstanding(all, before.entries[k].backend.id@) <= usize::MAX);
            }
        },
        PoolEvent::Released(id) => {
            if before.knows(id) {
                let k = choose|k: int| #[trigger] before.finds(id, k) && after == before.released(k);
                assert(before.has_id(id, k));
            } else {
                assert forall|i: int| 0 <= i < before.entries.len() implies (
                #[trigger] before.entries[i]).backend.id@ != id by {
                    assert(!before.has_id(id, i));
                }
            }
        },
    }
}

proof fn lemma_run_counts(states: Seq<PoolView>, events: Seq<PoolEvent>, n: int)
    requires
        pool_runs(states, events),
        states[0].entries.len() == 0,
        states[0].cursor == 0,
        ids_are_fresh(events),
        leases_are_kept(events),
        0 <= n <= events.len(),
    ensures
        counted(states[n], events.take(n)),
    decreases n,
{
    if n > 0 {
        lemma_run_counts(states, events, n - 1);
        assert(events.take(n) =~= events.take(n - 1).push(events[n - 1]));
        assert forall|id: Seq<char>| #[trigger]
            outstanding(events.take(n - 1).push(events[n - 1]), id) <= usize::MAX by {
            assert(outstanding(events.take(n), id) <= usize::MAX);
        }
        lemma_step_counts(states[n - 1], events.take(n - 1), events[n - 1], states[n]);
    } else {
        assert(events.take(0).len() == 0);
    }
}

/// The connections of a backend are its leases: in every state that a new pool gets into, each
/// backend has as many active connections as leases of it were taken and not given back, and no
/// more than it may have; and no two backends have the same id. Ids are not used again, and a lease
/// is given back once.
pub proof fn law_connections_are_leases(states: Seq<PoolView>, events: Seq<PoolEvent>)
    requires
        pool_runs(states, events),
        states[0].entries.len() == 0,
        states[0].cursor == 0,
        ids_are_fresh(events),
        leases_are_kept(events),
    ensures
        states.last().wf(),
        forall|i: int|
            0 <= i < states.last().entries.len() ==> {
                &&& (#[trigger] states.last().entries[i]).active == outstanding(
                    events,
                    states.last().entries[i].backend.id@,
                )
                &&& states.last().entries[i].within_limit()
            },
        forall|i: int, j: int|
            0 <= i < states.last().entries.len() && 0 <= j < states.last().entries.len() && i != j
                ==> (#[trigger] states.last().entries[i]).backend.id@ != (
            #[trigger] states.last().entries[j]).backend.id@,
{
    lemma_run_counts(states, events, events.len() as int);
    assert(events.take(events.len() as int) =~= events);
}

/// A listing of a pool reports every backend once, in order, and as its active connections the
/// number of its leases that were taken and not given back.
pub proof fn law_pool_listing_reports_the_leases(
    states: Seq<PoolView>,
    events: Seq<PoolEvent>,
    views: Seq<BackendView>,
    i: int,
)
    requires
        pool_runs(states, events),
        states[0].entries.len() == 0,
        states[0].cursor == 0,
        ids_are_fresh(events),
        leases_are_kept(events),
        lists(views, states.last()),
    ensures
        views.len() == states.last().entries.len(),
        0 <= i < views.len() ==> {
            &&& views[i].id == states.last().entries[i].backend.id
            &&& views[i].active_connections == outstanding(events, views[i].id@)
        },
{
    law_connections_are_leases(states, events);
    if 0 <= i < views.len() {
        assert(views[i] == view_of(
            states.last().entries[i].backend,
            states.last().entries[i].active,
        ));
    }
}

/// Whether a request asked for a backend in `Queue` mode.
pub open spec fn is_queue_turn(event: PoolEvent) -> bool {
    event matches PoolEvent::Asked(mode, _) && mode == LoadBalancingMode::Queue
}

/// How many requests asked for a backend in `Queue` mode.
pub open spec fn queue_turns(events: Seq<PoolEvent>) -> nat
    decreases events.len(),
{
    if events.len() == 0 {
        0
    } else {
        queue_turns(events.drop_last()) + if is_queue_turn(events.last()) {
            1nat
        } else {
            0
        }
    }
}

/// The place of the backend that is `k` places behind the one whose turn it is, from the start of
/// the pool again behind its end.
pub open spec fn place_in_turn(pool: PoolView, k: int) -> int {
    (pool.cursor + k) % (pool.entries.len() as int)
}

/// Whether no backend comes or goes, and all of them are available whenever a request asks for one
/// in `Queue` mode.
pub open spec fn all_stay_available(states: Seq<PoolView>, events: Seq<PoolEvent>) -> bool {
    &&& forall|i: int|
        0 <= i < events.len() ==> (#[trigger] events[i]) is Asked || events[i] is Released
    &&& forall|i: int, k: int|
        0 <= i < events.len() && is_queue_turn(events[i]) && 0 <= k < states[i].entries.len()
            ==> #[trigger] states[i].available(k)
}

proof fn lemma_turn_goes_on(states: Seq<PoolView>, events: Seq<PoolEvent>, n: int)
    requires
        pool_runs(states, events),
        states[0].wf(),
        states[0].entries.len() > 0,
        all_stay_available(states, events),
        0 <= n <= events.len(),
    ensures
        states[n].wf(),
        states[n].entries.len() == states[0].entries.len(),
        states[n].cursor == place_in_turn(states[0], queue_turns(events.take(n)) as int),
        forall|k: int|
            0 <= k < states[0].entries.len() ==> (#[trigger] states[n].entries[k]).backend
                == states[0].entries[k].backend,
    decreases n,
{
    let len = states[0].entries.len() as int;
    if n == 0 {
        assert(events.take(0).len() == 0);
        vstd::arithmetic::div_mod::lemma_small_mod(states[0].cursor as nat, len as nat);
    } else {
        lemma_turn_goes_on(states, events, n - 1);
        let before = states[n - 1];
        let event = events[n - 1];
        assert(events.take(n).drop_last() =~= events.take(n - 1));
        law_operations_keep_the_pool_valid(before, event, states[n]);
        match event {
            PoolEvent::Asked(mode, outcome) => {
                law_limit_is_kept(before, mode, outcome, states[n]);
                if mode == LoadBalancingMode::Queue {
                    lemma_turn_is_taken(before, outcome, states[n]);
                    law_turn_is_at_the_next_place(states[0], queue_turns(events.take(n - 1)) as int);
                }
            },
            PoolEvent::Released(id) => {
                if before.knows(id) {
                    let i = choose|i: int| #[trigger]
                        before.finds(id, i) && states[n] == before.released(i);
                    assert(before.has_id(id, i));
                }
            },
            _ => {},
        }
    }
}

/// Where all backends are available, the one whose turn it is is leased.
proof fn lemma_turn_is_taken(pool: PoolView, outcome: Acquisition, after: PoolView)
    requires
        pool.wf(),
        pool.entries.len() > 0,
        forall|k: int| 0 <= k < pool.entries.len() ==> #[trigger] pool.available(k),
        pool.answers(LoadBalancingMode::Queue, outcome, after),
    ensures
        outcome matches Acquisition::Leased(lease) && lease@ == pool.entries[pool.cursor].backend,
        after == pool.leased(LoadBalancingMode::Queue, pool.cursor),
{
    assert(pool.available(pool.cursor));
    law_leased_iff_available(pool, LoadBalancingMode::Queue, outcome, after);
    let lease = outcome->Leased_0;
    let i = choose|i: int|
        {
            &&& #[trigger] pool.picks(LoadBalancingMode::Queue, i)
            &&& lease@ == pool.entries[i].backend
            &&& after == pool.leased(LoadBalancingMode::Queue, i)
        };
    assert(pool.available(i));
    assert(pool.turn(i) <= pool.turn(pool.cursor));
}

/// Each turn is at the place behind that of the turn before it, and at the first place of the pool
/// behind the last one.
pub proof fn law_turn_is_at_the_next_place(pool: PoolView, k: int)
    requires
        pool.entries.len() > 0,
    ensures
        0 <= place_in_turn(pool, k) < pool.entries.len(),
        place_in_turn(pool, k + 1) == if place_in_turn(pool, k) + 1 < pool.entries.len() {
            place_in_turn(pool, k) + 1
        } else {
            0
        },
{
    let len = pool.entries.len() as int;
    let x = pool.cursor + k;
    assert(0 <= x % len < len && ((x + 1) % len == if x % len + 1 < len {
        x % len + 1
    } else {
        0
    })) by (nonlinear_arith)
        requires
            len > 0,
    {
        let q = x / len;
        let r = x % len;
        assert(x == len * q + r && 0 <= r < len);
        if r + 1 < len {
            vstd::arithmetic::div_mod::lemma_fundamental_div_mod_converse(x + 1, len, q, r + 1);
        } else {
            vstd::arithmetic::div_mod::lemma_fundamental_div_mod_converse(x + 1, len, q + 1, 0);
        }
    }
}

/// `Queue` mode is round-robin: the requests are given the backends one after the other, in the
/// order of the pool, and from the start again behind its end. This holds of backends with a limit
/// and of backends without one, as long as they are available, and whatever leases are taken in
/// `LeastConn` mode or given back in between.
pub proof fn law_queue_is_round_robin(states: Seq<PoolView>, events: Seq<PoolEvent>, i: int)
    requires
        pool_runs(states, events),
        states[0].wf(),
        states[0].entries.len() > 0,
        all_stay_available(states, events),
        0 <= i < events.len(),
        is_queue_turn(events[i]),
    ensures
        events[i] matches PoolEvent::Asked(_, Acquisition::Leased(lease)) && lease@
            == states[0].entries[place_in_turn(
            states[0],
            queue_turns(events.take(i)) as int,
        )].backend,
{
    lemma_turn_goes_on(states, events, i);
    lemma_turn_is_taken(states[i], events[i]->Asked_1, states[i + 1]);
    assert(states[i].available(states[i].cursor));
}

/// Whether the backend at `i` has one of the turns of the round that begins with turn `start`.
pub open spec fn is_served_in_round(pool: PoolView, start: int, i: int) -> bool {
    exists|k: int|
        start <= k < start + pool.entries.len() && #[trigger] place_in_turn(pool, k) == i
}

/// A round serves every backend once: the places of as many turns as there are backends are all
/// different, every backend has one of them, and the turn behind the round is at the place of its
/// first turn.
pub proof fn law_round_serves_each_once(pool: PoolView, start: int)
    requires
        pool.entries.len() > 0,
    ensures
        forall|j: int, k: int|
            start <= j < k < start + pool.entries.len() ==> #[trigger] place_in_turn(pool, j)
                != #[trigger] place_in_turn(pool, k),
        forall|i: int|
            0 <= i < pool.entries.len() ==> #[trigger] is_served_in_round(pool, start, i),
        place_in_turn(pool, start + pool.entries.len()) == place_in_turn(pool, start),
{
    let len = pool.entries.len() as int;
    let c = pool.cursor;
    assert forall|j: int, k: int| start <= j < k < start + len implies #[trigger] place_in_turn(
        pool,
        j,
    ) != #[trigger] place_in_turn(pool, k) by {
        lemma_places_differ(c + j, c + k, len);
    }
    assert forall|i: int| 0 <= i < len implies #[trigger] is_served_in_round(
        pool,
        start,
        i,
    ) by {
        let k = start + (i - c - start) % len;
        lemma_place_is_reached(c + start, i, len);
        assert(place_in_turn(pool, k) == i);
    }
    vstd::arithmetic::div_mod::lemma_mod_add_multiples_vanish(c + start, len);
    assert(place_in_turn(pool, start + len) == place_in_turn(pool, start));
}

proof fn lemma_places_differ(x: int, y: int, len: int)
    requires
        0 < len,
        x < y < x + len,
    ensures
        x % len != y % len,
{
    assert(x % len != y % len) by (nonlinear_arith)
        requires
            0 < len,
            x < y < x + len,
    {
        let a = x / len;
        let b = y / len;
        assert(x == len * a + x % len);
        assert(y == len * b + y % len);
        if x % len == y % len {
            assert(y - x == len * (b - a));
            if b - a >= 1 {
                assert(len * (b - a) >= len);
            } else {
                assert(len * (b - a) <= 0);
            }
        }
    }
}

proof fn lemma_place_is_reached(x: int, i: int, len: int)
    requires
        0 <= i < len,
    ensures
        0 <= (i - x) % len < len,
        (x + (i - x) % len) % len == i,
{
    vstd::arithmetic::div_mod::lemma_add_mod_noop_right(x, i - x, len);
    vstd::arithmetic::div_mod::lemma_small_mod(i as nat, len as nat);
}

} // verus!
