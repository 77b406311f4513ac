//! What holds of a pool across its operations.

use crate::backend::{view_of, Backend, BackendView};
use crate::balancer::LoadBalancingMode;
use crate::pool::{Acquisition, BackendLease, PoolView};
use vstd::prelude::*;

verus! {

/// At most one backend is the next one to be leased.
pub proof fn law_pick_is_unique(pool: PoolView, mode: LoadBalancingMode, i: int, j: int)
    requires
        pool.wf(),
        pool.picks(mode, i),
        pool.picks(mode, j),
    ensures
        i == j,
{
    assert(pool.available(i) && pool.available(j));
}

/// A request is given a backend exactly where one is available.
pub proof fn law_leased_iff_available(
    pool: PoolView,
    mode: LoadBalancingMode,
    outcome: Acquisition,
    after: PoolView,
)
    requires
        pool.answers(mode, outcome, after),
    ensures
        outcome is Leased <==> pool.any_available(),
{
    if outcome is Leased {
        let i = choose|i: int| #[trigger] pool.picks(mode, i) && after == pool.leased(mode, i);
        assert(pool.available(i));
    } else if pool.entries.len() == 0 && pool.any_available() {
        let i = choose|i: int| #[trigger] pool.available(i);
        assert(false);
    }
}

/// Whatever the answer to a request, no backend has more connections than it may have, and no
/// backend comes, goes or changes its place.
pub proof fn law_limit_is_kept(
    pool: PoolView,
    mode: LoadBalancingMode,
    outcome: Acquisition,
    after: PoolView,
)
    requires
        pool.wf(),
        pool.answers(mode, outcome, after),
    ensures
        after.wf(),
        after.entries.len() == pool.entries.len(),
        forall|i: int|
            0 <= i < pool.entries.len() ==> (#[trigger] after.entries[i]).backend
                == pool.entries[i].backend,
{
    if outcome is Leased {
        let i = choose|i: int| #[trigger] pool.picks(mode, i) && after == pool.leased(mode, i);
        assert(pool.available(i));
        assert forall|j: int| 0 <= j < after.entries.len() implies (
        #[trigger] after.entries[j]).within_limit() by {
            assert(pool.entries[j].within_limit());
        }
    }
}

/// A lease that is given back leaves every count of connections as it was before. The id has to
/// be that of one backend only, and the count has to be below the largest number.
pub proof fn law_release_undoes_lease(pool: PoolView, mode: LoadBalancingMode, i: int)
    requires
        pool.wf(),
        pool.picks(mode, i),
        pool.entries[i].active < usize::MAX,
        pool.finds(pool.entries[i].backend.id@, i),
    ensures
        pool.leased(mode, i).finds(pool.entries[i].backend.id@, i),
        pool.leased(mode, i).released(i).entries == pool.entries,
{
    let id = pool.entries[i].backend.id@;
    let after = pool.leased(mode, i);
    assert(pool.available(i));
    assert(after.has_id(id, i));
    assert forall|j: int| #[trigger] after.has_id(id, j) implies i <= j by {
        assert(pool.has_id(id, j));
    }
    assert(after.released(i).entries =~= pool.entries);
}

/// A backend that is removed right after it was added leaves the pool as it was, where no other
/// backend has its id.
pub proof fn law_remove_undoes_add(pool: PoolView, backend: Backend)
    requires
        pool.wf(),
        !pool.knows(backend.id@),
    ensures
        pool.added(backend).finds(backend.id@, pool.entries.len() as int),
        pool.added(backend).removed(pool.entries.len() as int) == pool,
{
    let n = pool.entries.len() as int;
    let added = pool.added(backend);
    assert(added.has_id(backend.id@, n));
    assert forall|j: int| #[trigger] added.has_id(backend.id@, j) implies n <= j by {
        if j < n {
            assert(pool.has_id(backend.id@, j));
        }
    }
    assert(added.removed(n).entries =~= pool.entries);
}

/// In `LeastConn` mode an idle backend is preferred to one that has connections.
pub proof fn law_least_conn_prefers_idle(pool: PoolView, i: int, idle: int)
    requires
        pool.picks(LoadBalancingMode::LeastConn, i),
        pool.available(idle),
        pool.entries[idle].active == 0,
    ensures
        pool.entries[i].active == 0,
{
}

/// In `Queue` mode no backend is leased twice in a row while another one is available.
pub proof fn law_queue_takes_turns(pool: PoolView, i: int, other: int, next: int)
    requires
        pool.wf(),
        pool.picks(LoadBalancingMode::Queue, i),
        other != i,
        pool.leased(LoadBalancingMode::Queue, i).available(other),
        pool.leased(LoadBalancingMode::Queue, i).picks(LoadBalancingMode::Queue, next),
    ensures
        next != i,
{
    let after = pool.leased(LoadBalancingMode::Queue, i);
    assert(pool.available(i));
    assert(after.turn(other) < after.turn(i));
}

/// In `Queue` mode every lease of another backend brings an available backend nearer to its turn,
/// so that it is not passed over for ever.
pub proof fn law_queue_passes_none_over(pool: PoolView, i: int, waiting: int)
    requires
        pool.wf(),
        pool.picks(LoadBalancingMode::Queue, i),
        pool.available(waiting),
        waiting != i,
    ensures
        0 <= pool.leased(LoadBalancingMode::Queue, i).turn(waiting) < pool.turn(waiting),
        pool.leased(LoadBalancingMode::Queue, i).available(waiting),
{
    assert(pool.available(i));
}

/// A removal keeps the round-robin turn: of any two backends that stay, the one that came first in
/// the turn still does.
pub proof fn law_removal_keeps_the_turn(pool: PoolView, removed: int, i: int, j: int)
    requires
        pool.wf(),
        0 <= removed < pool.entries.len(),
        0 <= i < pool.entries.len() && i != removed,
        0 <= j < pool.entries.len() && j != removed,
        pool.turn(i) < pool.turn(j),
    ensures
        ({
            let after = pool.removed(removed);
            let i_after = if i < removed { i } else { i - 1 };
            let j_after = if j < removed { j } else { j - 1 };
            &&& after.entries[i_after] == pool.entries[i]
            &&& after.entries[j_after] == pool.entries[j]
            &&& after.turn(i_after) < after.turn(j_after)
        }),
{
}

/// A request that waits goes on waiting whatever other requests ask for: only a pool in which a
/// backend was added or removed, or a lease given back, can have an available backend again.
pub proof fn law_leases_end_no_wait(
    pool: PoolView,
    mode: LoadBalancingMode,
    outcome: Acquisition,
    after: PoolView,
)
    requires
        !pool.any_available(),
        pool.answers(mode, outcome, after),
    ensures
        after == pool,
        !after.any_available(),
{
    law_leased_iff_available(pool, mode, outcome, after);
}

/// A lease that is given back makes its backend available, unless the backend takes no
/// connections at all.
pub proof fn law_release_frees_a_slot(pool: PoolView, id: Seq<char>, i: int)
    requires
        pool.wf(),
        pool.finds(id, i),
        pool.entries[i].backend.max_connections != Some(0usize),
    ensures
        pool.released(i).available(i),
        pool.released(i).any_available(),
{
    assert(pool.entries[i].within_limit());
    assert(pool.released(i).available(i));
}

/// A backend takes one more connection exactly where it has no limit or fewer connections than its
/// limit, whatever the limit is; and it is within its limit where it has no more than that.
pub proof fn law_slot_is_free_below_the_limit(pool: PoolView, i: int)
    ensures
        pool.available(i) <==> {
            &&& 0 <= i < pool.entries.len()
            &&& pool.entries[i].backend.max_connections is None || pool.entries[i].active
                < pool.entries[i].backend.max_connections->0
        },
        pool.entries[i].within_limit() <==> pool.entries[i].backend.max_connections is None
            || pool.entries[i].active <= pool.entries[i].backend.max_connections->0,
{
}

/// Some backend is available exactly where one of the places holds one with a free slot.
pub proof fn law_any_available_means_a_free_slot(pool: PoolView)
    ensures
        pool.any_available() <==> exists|i: int|
            0 <= i < pool.entries.len() && ((#[trigger] pool.entries[i]).backend.max_connections
                is None || pool.entries[i].active < pool.entries[i].backend.max_connections->0),
{
    if pool.any_available() {
        let i = choose|i: int| #[trigger] pool.available(i);
        assert(pool.entries[i].available());
    }
    if exists|i: int|
        0 <= i < pool.entries.len() && ((#[trigger] pool.entries[i]).backend.max_connections is None
            || pool.entries[i].active < pool.entries[i].backend.max_connections->0) {
        let i = choose|i: int|
            0 <= i < pool.entries.len() && ((#[trigger] pool.entries[i]).backend.max_connections
                is None || pool.entries[i].active < pool.entries[i].backend.max_connections->0);
        assert(pool.available(i));
    }
}

/// A valid pool has its turn at one of its backends, or at the first place where it has none, and
/// no backend has more connections than its limit.
pub proof fn law_valid_pool_keeps_limits(pool: PoolView, i: int)
    requires
        pool.wf(),
    ensures
        0 <= pool.cursor,
        pool.entries.len() > 0 ==> pool.cursor < pool.entries.len(),
        pool.entries.len() == 0 ==> pool.cursor == 0,
        0 <= i < pool.entries.len() && pool.entries[i].backend.max_connections is Some
            ==> pool.entries[i].active <= pool.entries[i].backend.max_connections->0,
{
    if 0 <= i < pool.entries.len() {
        assert(pool.entries[i].within_limit());
    }
}

/// A lease adds one connection to the backend that was leased, and changes nothing else of the
/// backends: no other count, no backend, no place.
pub proof fn law_lease_counts_once(
    pool: PoolView,
    mode: LoadBalancingMode,
    lease: BackendLease,
    after: PoolView,
) -> (i: int)
    requires
        pool.answers(mode, Acquisition::Leased(lease), after),
    ensures
        0 <= i < pool.entries.len(),
        pool.entries[i].backend.max_connections is None || pool.entries[i].active
            < pool.entries[i].backend.max_connections->0,
        lease@ == pool.entries[i].backend,
        after.entries.len() == pool.entries.len(),
        after.entries[i].backend == pool.entries[i].backend,
        pool.entries[i].active < usize::MAX ==> after.entries[i].active == pool.entries[i].active
            + 1,
        pool.entries[i].active == usize::MAX ==> after.entries[i].active == usize::MAX,
        forall|j: int|
            0 <= j < pool.entries.len() && j != i ==> #[trigger] after.entries[j]
                == pool.entries[j],
        mode == LoadBalancingMode::LeastConn ==> after.cursor == pool.cursor,
        mode == LoadBalancingMode::Queue ==> after.cursor == if i + 1 == pool.entries.len() {
            0
        } else {
            i + 1
        },
        pool.picks(mode, i),
{
    let i = choose|i: int|
        {
            &&& #[trigger] pool.picks(mode, i)
            &&& lease@ == pool.entries[i].backend
            &&& after == pool.leased(mode, i)
        };
    assert(pool.available(i));
    i
}

/// In `LeastConn` mode no backend with a free slot has fewer connections than the one that is
/// leased, and none in front of it has as few.
pub proof fn law_least_conn_leases_the_least_loaded(pool: PoolView, i: int, j: int)
    requires
        pool.picks(LoadBalancingMode::LeastConn, i),
        0 <= j < pool.entries.len(),
        pool.entries[j].backend.max_connections is None || pool.entries[j].active
            < pool.entries[j].backend.max_connections->0,
    ensures
        pool.entries[i].active <= pool.entries[j].active,
        j < i ==> pool.entries[i].active < pool.entries[j].active,
{
    assert(pool.available(j));
}

/// In `Queue` mode the one that is leased is the first with a free slot, from the place of the turn
/// on and then from the start of the pool.
pub proof fn law_queue_leases_the_first_in_turn(pool: PoolView, i: int, j: int)
    requires
        pool.wf(),
        pool.picks(LoadBalancingMode::Queue, i),
        0 <= j < pool.entries.len(),
        pool.entries[j].backend.max_connections is None || pool.entries[j].active
            < pool.entries[j].backend.max_connections->0,
    ensures
        i >= pool.cursor ==> j >= i || j < pool.cursor,
        i < pool.cursor ==> i <= j < pool.cursor,
{
    assert(pool.available(i));
    assert(pool.available(j));
}

/// A request is refused, in `LeastConn` mode, only where every backend has as many connections as
/// its limit, and in `Queue` mode only where there are no backends; it waits only in `Queue` mode,
/// and where there are backends and all are busy. The pool stays as it is.
pub proof fn law_refusals_and_waits_have_a_reason(
    pool: PoolView,
    mode: LoadBalancingMode,
    outcome: Acquisition,
    after: PoolView,
    i: int,
)
    requires
        pool.answers(mode, outcome, after),
        !(outcome is Leased),
    ensures
        after == pool,
        outcome is Wait ==> mode == LoadBalancingMode::Queue && pool.entries.len() > 0,
        outcome is Unavailable && mode == LoadBalancingMode::Queue ==> pool.entries.len() == 0,
        0 <= i < pool.entries.len() ==> pool.entries[i].backend.max_connections is Some
            && pool.entries[i].active >= pool.entries[i].backend.max_connections->0,
{
    if 0 <= i < pool.entries.len() && pool.entries[i].available() {
        assert(pool.available(i));
    }
}

/// A backend that is added stands behind all others, without connections, and nothing else changes.
pub proof fn law_added_backend_stands_last(pool: PoolView, backend: Backend)
    ensures
        pool.added(backend).entries.len() == pool.entries.len() + 1,
        pool.added(backend).entries.last().backend == backend,
        pool.added(backend).entries.last().active == 0,
        forall|i: int|
            0 <= i < pool.entries.len() ==> #[trigger] pool.added(backend).entries[i]
                == pool.entries[i],
        pool.added(backend).cursor == pool.cursor,
{
}

/// A backend is found by its whole id: the first one of which the id is the given one, if any is.
pub proof fn law_backends_are_found_by_id(pool: PoolView, id: Seq<char>, i: int)
    ensures
        pool.finds(id, i) <==> {
            &&& 0 <= i < pool.entries.len()
            &&& pool.entries[i].backend.id@ == id
            &&& forall|j: int| 0 <= j < i ==> (#[trigger] pool.entries[j]).backend.id@ != id
        },
        0 <= i < pool.entries.len() && pool.entries[i].backend.id@ == id ==> pool.knows(id),
        pool.knows(id) ==> exists|j: int|
            0 <= j < pool.entries.len() && (#[trigger] pool.entries[j]).backend.id@ == id,
{
    if pool.finds(id, i) {
        assert forall|j: int| 0 <= j < i implies (#[trigger] pool.entries[j]).backend.id@ != id by {
            if pool.entries[j].backend.id@ == id {
                assert(pool.has_id(id, j));
            }
        }
    }
    if 0 <= i < pool.entries.len() && pool.entries[i].backend.id@ == id {
        assert(pool.has_id(id, i));
        if forall|j: int| 0 <= j < i ==> (#[trigger] pool.entries[j]).backend.id@ != id {
            assert forall|j: int| #[trigger] pool.has_id(id, j) implies i <= j by {
                if j < i {
                    assert(pool.entries[j].backend.id@ != id);
                }
            }
        }
    }
    if pool.knows(id) {
        let j = choose|j: int| #[trigger] pool.has_id(id, j);
        assert(pool.entries[j].backend.id@ == id);
    }
}

/// A removal takes out the first backend with the id and reports on it as it was; the others keep
/// what they hold and their order, and the turn stays where it was among them.
pub proof fn law_removal_takes_out_one(
    pool: PoolView,
    id: Seq<char>,
    view: BackendView,
    after: PoolView,
) -> (i: int)
    requires
        pool.removes(id, view, after),
    ensures
        0 <= i < pool.entries.len(),
        pool.entries[i].backend.id@ == id,
        forall|j: int| 0 <= j < i ==> (#[trigger] pool.entries[j]).backend.id@ != id,
        view.id == pool.entries[i].backend.id,
        view.url == pool.entries[i].backend.url,
        view.scheme == pool.entries[i].backend.scheme,
        view.max_connections == pool.entries[i].backend.max_connections,
        view.active_connections == pool.entries[i].active,
        after.entries.len() == pool.entries.len() - 1,
        forall|j: int| 0 <= j < i ==> #[trigger] after.entries[j] == pool.entries[j],
        forall|j: int|
            i <= j < after.entries.len() ==> #[trigger] after.entries[j] == pool.entries[j + 1],
        after.cursor == if i < pool.cursor && pool.cursor <= after.entries.len() {
            pool.cursor - 1
        } else if i >= pool.cursor && pool.cursor < after.entries.len() {
            pool.cursor
        } else {
            0
        },
{
    let i = choose|i: int|
        {
            &&& #[trigger] pool.finds(id, i)
            &&& after == pool.removed(i)
            &&& view == view_of(pool.entries[i].backend, pool.entries[i].active)
        };
    law_backends_are_found_by_id(pool, id, i);
    i
}

/// A lease that is given back takes one connection from the first backend with the id, unless it
/// has none, and changes nothing else; with an id that no backend has it changes nothing.
pub proof fn law_release_takes_one_connection(pool: PoolView, id: Seq<char>, after: PoolView, i: int)
    requires
        pool.releases(id, after),
    ensures
        after.cursor == pool.cursor,
        after.entries.len() == pool.entries.len(),
        0 <= i < pool.entries.len() ==> after.entries[i].backend == pool.entries[i].backend,
        0 <= i < pool.entries.len() && pool.entries[i].backend.id@ != id ==> after.entries[i]
            == pool.entries[i],
        0 <= i < pool.entries.len() && pool.entries[i].backend.id@ == id && (forall|j: int|
            0 <= j < i ==> (#[trigger] pool.entries[j]).backend.id@ != id)
            ==> after.entries[i].active == if pool.entries[i].active > 0 {
            pool.entries[i].active - 1
        } else {
            0
        },
        0 <= i < pool.entries.len() && (exists|j: int|
            0 <= j < i && (#[trigger] pool.entries[j]).backend.id@ == id) ==> after.entries[i]
            == pool.entries[i],
{
    if pool.knows(id) {
        let k = choose|k: int| #[trigger] pool.finds(id, k) && after == pool.released(k);
        law_backends_are_found_by_id(pool, id, k);
        if 0 <= i < pool.entries.len() && pool.entries[i].backend.id@ == id {
            assert(pool.has_id(id, i));
        }
    } else {
        law_backends_are_found_by_id(pool, id, i);
    }
}

} // verus!
