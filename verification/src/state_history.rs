//! What holds of the state of the proxy over a history of operations.

use crate::backend::{view_of, Backend, BackendView};
use crate::balancer::LoadBalancingMode;
use crate::pool::{Acquisition, BackendState, PoolView};
use crate::pool_history::{
    counted, law_operations_keep_the_pool_valid, lemma_step_counts, outstanding, pool_step, PoolEvent,
};
use crate::pool_laws::law_limit_is_kept;
use crate::state::{lemma_removal_keeps_placement, lists, well_placed, StateView};
use vstd::prelude::*;

verus! {

/// An operation on the state of the proxy, with what it returned.
pub enum StateEvent {
    /// A backend was added.
    Added(Backend),
    /// The backend with an id was to be removed, and was reported on if there was one.
    Removed(Seq<char>, Option<BackendView>),
    /// The mode was changed.
    ModeSet(LoadBalancingMode),
    /// A request asked for a backend, in the mode of the state or, while it waits, in `Queue` mode.
    AskedHttp(LoadBalancingMode, Acquisition),
    /// A WebSocket connection asked for a backend, in the same way.
    AskedWs(LoadBalancingMode, Acquisition),
    /// A lease of the backend for requests with an id was given back.
    ReleasedHttp(Seq<char>),
    /// A lease of the backend for WebSocket connections with an id was given back.
    ReleasedWs(Seq<char>),
    /// The state was read, or a backend was refused.
    Unchanged,
}

/// Whether an operation on a proxy that holds `before` leaves `after`.
pub open spec fn state_step(before: StateView, event: StateEvent, after: StateView) -> bool {
    match event {
        StateEvent::Added(backend) => {
            &&& well_placed(backend, backend.scheme.spec_is_http())
            &&& after == before.added(backend)
        },
        StateEvent::Removed(id, Some(view)) => before.knows(id) && before.removes(id, view, after),
        StateEvent::Removed(id, None) => !before.knows(id) && after == before,
        StateEvent::ModeSet(mode) => after == StateView { mode, ..before },
        StateEvent::AskedHttp(mode, outcome) => {
            &&& before.http.answers(mode, outcome, after.http)
            &&& after == StateView { http: after.http, ..before }
        },
        StateEvent::AskedWs(mode, outcome) => {
            &&& before.ws.answers(mode, outcome, after.ws)
            &&& after == StateView { ws: after.ws, ..before }
        },
        StateEvent::ReleasedHttp(id) => {
            &&& before.http.releases(id, after.http)
            &&& after == StateView { http: after.http, ..before }
        },
        StateEvent::ReleasedWs(id) => {
            &&& before.ws.releases(id, after.ws)
            &&& after == StateView { ws: after.ws, ..before }
        },
        StateEvent::Unchanged => after == before,
    }
}

/// Whether the operations lead a new proxy through the states, from the first one to the last one.
pub open spec fn state_runs(states: Seq<StateView>, events: Seq<StateEvent>) -> bool {
    &&& states.len() == events.len() + 1
    &&& states[0].http.entries.len() == 0
    &&& states[0].http.cursor == 0
    &&& states[0].ws.entries.len() == 0
    &&& states[0].ws.cursor == 0
    &&& forall|i: int|
        0 <= i < events.len() ==> state_step(states[i], #[trigger] events[i], states[i + 1])
}

/// Whether an operation adds a backend with the given id.
pub open spec fn adds_id(event: StateEvent, id: Seq<char>) -> bool {
    event matches StateEvent::Added(backend) && backend.id@ == id
}

/// Whether a backend with the given id was ever added.
pub open spec fn was_added(events: Seq<StateEvent>, id: Seq<char>) -> bool {
    exists|i: int| 0 <= i < events.len() && adds_id(#[trigger] events[i], id)
}

/// Whether no two of the ids that backends were given are equal, those of removed backends among
/// them.
pub open spec fn ids_do_not_collide(events: Seq<StateEvent>) -> bool {
    forall|i: int|
        #![trigger events[i]]
        0 <= i < events.len() ==> (events[i] matches StateEvent::Added(backend) ==> !was_added(
            events.take(i),
            backend.id@,
        ))
}

/// Whether one of the given backends has the given id.
pub open spec fn any_has_id(backends: Seq<Backend>, id: Seq<char>) -> bool {
    exists|i: int| 0 <= i < backends.len() && (#[trigger] backends[i]).id@ == id
}

/// The given backends without the first one with the given id.
pub open spec fn without_first(backends: Seq<Backend>, id: Seq<char>) -> Seq<Backend>
    decreases backends.len(),
{
    if backends.len() == 0 {
        backends
    } else if backends.first().id@ == id {
        backends.drop_first()
    } else {
        seq![backends.first()] + without_first(backends.drop_first(), id)
    }
}

/// The backends that were added and not removed, in the order in which they were added: those for
/// requests, or those for WebSocket connections. A removal is of the first backend with the id,
/// where those for requests come before the others.
pub open spec fn registered(events: Seq<StateEvent>, http: bool) -> Seq<Backend>
    decreases events.len(),
{
    if events.len() == 0 {
        Seq::empty()
    } else {
        let before = registered(events.drop_last(), http);
        match events.last() {
            StateEvent::Added(backend) => if backend.scheme.spec_is_http() == http {
                before.push(backend)
            } else {
                before
            },
            StateEvent::Removed(id, _) => if !http && any_has_id(
                registered(events.drop_last(), true),
                id,
            ) {
                before
            } else {
                without_first(before, id)
            },
            _ => before,
        }
    }
}

/// The backends of a pool.
pub open spec fn backends_of(pool: PoolView) -> Seq<Backend> {
    pool.entries.map_values(|entry: BackendState| entry.backend)
}

/// Whether the ids of the given backends are different from each other.
pub open spec fn ids_differ(backends: Seq<Backend>) -> bool {
    forall|i: int, j: int|
        0 <= i < backends.len() && 0 <= j < backends.len() && i != j ==> (
        #[trigger] backends[i]).id@ != (#[trigger] backends[j]).id@
}

proof fn lemma_without_unknown_id(backends: Seq<Backend>, id: Seq<char>)
    requires
        !any_has_id(backends, id),
    ensures
        without_first(backends, id) == backends,
    decreases backends.len(),
{
    if backends.len() > 0 {
        let rest = backends.drop_first();
        assert(backends[0].id@ != id);
        assert forall|i: int| 0 <= i < rest.len() implies (#[trigger] rest[i]).id@ != id by {
            assert(backends[i + 1].id@ != id);
        }
        lemma_without_unknown_id(rest, id);
        assert(seq![backends.first()] + rest =~= backends);
    }
}

proof fn lemma_without_known_id(backends: Seq<Backend>, id: Seq<char>, i: int)
    requires
        0 <= i < backends.len(),
        backends[i].id@ == id,
        forall|j: int| 0 <= j < i ==> (#[trigger] backends[j]).id@ != id,
    ensures
        without_first(backends, id) == backends.remove(i),
    decreases i,
{
    let rest = backends.drop_first();
    if i == 0 {
        assert(backends.remove(0) =~= rest);
    } else {
        assert(backends[0].id@ != id);
        assert forall|j: int| 0 <= j < i - 1 implies (#[trigger] rest[j]).id@ != id by {
            assert(backends[j + 1].id@ != id);
        }
        lemma_without_known_id(rest, id, i - 1);
        assert(seq![backends.first()] + rest.remove(i - 1) =~= backends.remove(i));
    }
}

/// Every operation leaves a well-formed state.
pub proof fn law_operations_keep_the_state_valid(
    before: StateView,
    event: StateEvent,
    after: StateView,
)
    requires
        before.wf(),
        state_step(before, event, after),
    ensures
        after.wf(),
{
    match event {
        StateEvent::Added(backend) => {
            if backend.scheme.spec_is_http() {
                lemma_pool_stays_placed(before.http, PoolEvent::Added(backend), after.http, true);
            } else {
                lemma_pool_stays_placed(before.ws, PoolEvent::Added(backend), after.ws, false);
            }
        },
        StateEvent::Removed(id, Some(view)) => {
            let removal = PoolEvent::Removed(id, Some(view));
            if before.http.knows(id) {
                lemma_pool_stays_placed(before.http, removal, after.http, true);
            } else {
                lemma_pool_stays_placed(before.ws, removal, after.ws, false);
            }
        },
        StateEvent::AskedHttp(mode, outcome) => {
            let asked = PoolEvent::Asked(mode, outcome);
            lemma_pool_stays_placed(before.http, asked, after.http, true);
        },
        StateEvent::AskedWs(mode, outcome) => {
            let asked = PoolEvent::Asked(mode, outcome);
            lemma_pool_stays_placed(before.ws, asked, after.ws, false);
        },
        StateEvent::ReleasedHttp(id) => {
            lemma_pool_stays_placed(before.http, PoolEvent::Released(id), after.http, true);
        },
        StateEvent::ReleasedWs(id) => {
            lemma_pool_stays_placed(before.ws, PoolEvent::Released(id), after.ws, false);
        },
        _ => {},
    }
}

spec fn placed(pool: PoolView, http: bool) -> bool {
    &&& pool.wf()
    &&& forall|i: int|
        0 <= i < pool.entries.len() ==> well_placed((#[trigger] pool.entries[i]).backend, http)
}

proof fn lemma_pool_stays_placed(before: PoolView, event: PoolEvent, after: PoolView, http: bool)
    requires
        placed(before, http),
        pool_step(before, event, after),
        event matches PoolEvent::Added(backend) ==> well_placed(backend, http),
    ensures
        placed(after, http),
{
    law_operations_keep_the_pool_valid(before, event, after);
    match event {
        PoolEvent::Removed(id, Some(view)) => {
            let k = choose|k: int| #[trigger] before.finds(id, k) && after == before.removed(k);
            assert(before.has_id(id, k));
            lemma_removal_keeps_placement(before, k, http);
        },
        PoolEvent::Asked(mode, outcome) => {
            law_limit_is_kept(before, mode, outcome, after);
        },
        PoolEvent::Released(id) => {
            if before.knows(id) {
                let k = choose|k: int| #[trigger] before.finds(id, k) && after == before.released(k);
                assert(before.has_id(id, k));
            }
        },
        _ => {},
    }
}

proof fn lemma_pool_knows_its_backends(pool: PoolView, id: Seq<char>)
    ensures
        pool.knows(id) == any_has_id(backends_of(pool), id),
{
    if pool.knows(id) {
        let i = choose|i: int| #[trigger] pool.has_id(id, i);
        assert(backends_of(pool)[i].id@ == id);
    }
    if any_has_id(backends_of(pool), id) {
        let i = choose|i: int|
            0 <= i < backends_of(pool).len() && (#[trigger] backends_of(pool)[i]).id@ == id;
        assert(pool.has_id(id, i));
    }
}

proof fn lemma_removal_drops_the_first(
    before: PoolView,
    id: Seq<char>,
    view: BackendView,
    after: PoolView,
)
    requires
        before.removes(id, view, after),
    ensures
        backends_of(after) == without_first(backends_of(before), id),
{
    let k = choose|k: int| #[trigger] before.finds(id, k) && after == before.removed(k);
    assert(before.has_id(id, k));
    assert forall|j: int| 0 <= j < k implies (#[trigger] backends_of(before)[j]).id@ != id by {
        if backends_of(before)[j].id@ == id {
            assert(before.has_id(id, j));
        }
    }
    lemma_without_known_id(backends_of(before), id, k);
    assert(backends_of(after) =~= backends_of(before).remove(k));
}

proof fn lemma_step_is_recorded(
    before: StateView,
    events: Seq<StateEvent>,
    event: StateEvent,
    after: StateView,
)
    requires
        before.wf(),
        backends_of(before.http) == registered(events, true),
        backends_of(before.ws) == registered(events, false),
        state_step(before, event, after),
    ensures
        backends_of(after.http) == registered(events.push(event), true),
        backends_of(after.ws) == registered(events.push(event), false),
{
    assert(events.push(event).drop_last() =~= events);
    match event {
        StateEvent::Added(backend) => {
            if backend.scheme.spec_is_http() {
                assert(backends_of(after.http) =~= backends_of(before.http).push(backend));
            } else {
                assert(backends_of(after.ws) =~= backends_of(before.ws).push(backend));
            }
        },
        StateEvent::Removed(id, view) => {
            lemma_pool_knows_its_backends(before.http, id);
            lemma_pool_knows_its_backends(before.ws, id);
            if before.http.knows(id) {
                lemma_removal_drops_the_first(before.http, id, view->0, after.http);
            } else {
                lemma_without_unknown_id(backends_of(before.http), id);
                if before.ws.knows(id) {
                    lemma_removal_drops_the_first(before.ws, id, view->0, after.ws);
                } else {
                    lemma_without_unknown_id(backends_of(before.ws), id);
                }
            }
        },
        _ => {
            lemma_backends_stay(before, event, after);
        },
    }
}

/// Whether the ids of the backends of both pools are different from each other.
pub open spec fn all_ids_differ(state: StateView) -> bool {
    &&& ids_differ(backends_of(state.http))
    &&& ids_differ(backends_of(state.ws))
    &&& forall|id: Seq<char>| #[trigger]
        any_has_id(backends_of(state.http), id) ==> !any_has_id(backends_of(state.ws), id)
}

/// Whether all the given backends were added.
pub open spec fn all_were_added(backends: Seq<Backend>, events: Seq<StateEvent>) -> bool {
    forall|id: Seq<char>| #[trigger] any_has_id(backends, id) ==> was_added(events, id)
}

proof fn lemma_more_were_added(events: Seq<StateEvent>, event: StateEvent)
    ensures
        forall|id: Seq<char>| was_added(events, id) ==> #[trigger] was_added(
            events.push(event),
            id,
        ),
{
    assert forall|id: Seq<char>| was_added(events, id) implies #[trigger] was_added(
        events.push(event),
        id,
    ) by {
        let i = choose|i: int| 0 <= i < events.len() && adds_id(#[trigger] events[i], id);
        assert(adds_id(events.push(event)[i], id));
    }
}

proof fn lemma_ids_after_push(backends: Seq<Backend>, backend: Backend)
    requires
        ids_differ(backends),
        !any_has_id(backends, backend.id@),
    ensures
        ids_differ(backends.push(backend)),
        forall|id: Seq<char>| #[trigger]
            any_has_id(backends.push(backend), id) ==> any_has_id(backends, id) || id
                == backend.id@,
{
    let all = backends.push(backend);
    assert forall|id: Seq<char>| #[trigger] any_has_id(all, id) implies any_has_id(backends, id)
        || id == backend.id@ by {
        let i = choose|i: int| 0 <= i < all.len() && (#[trigger] all[i]).id@ == id;
        if i < backends.len() {
            assert(backends[i].id@ == id);
        }
    }
    assert forall|i: int, j: int|
        0 <= i < all.len() && 0 <= j < all.len() && i != j implies (#[trigger] all[i]).id@ != (
    #[trigger] all[j]).id@ by {
        let n = backends.len();
        if i < n && j < n {
            assert(backends[i].id@ != backends[j].id@);
        } else if i < n {
            assert(backends[i].id@ != backend.id@);
        } else {
            assert(backends[j].id@ != backend.id@);
        }
    }
}

proof fn lemma_ids_after_remove(backends: Seq<Backend>, k: int)
    requires
        ids_differ(backends),
        0 <= k < backends.len(),
    ensures
        ids_differ(backends.remove(k)),
        forall|id: Seq<char>| #[trigger]
            any_has_id(backends.remove(k), id) ==> any_has_id(backends, id),
{
    let rest = backends.remove(k);
    assert forall|id: Seq<char>| #[trigger] any_has_id(rest, id) implies any_has_id(
        backends,
        id,
    ) by {
        let i = choose|i: int| 0 <= i < rest.len() && (#[trigger] rest[i]).id@ == id;
        let from = if i < k { i } else { i + 1 };
        assert(backends[from].id@ == id);
    }
    assert forall|i: int, j: int|
        0 <= i < rest.len() && 0 <= j < rest.len() && i != j implies (#[trigger] rest[i]).id@ != (
    #[trigger] rest[j]).id@ by {
        let i_from = if i < k { i } else { i + 1 };
        let j_from = if j < k { j } else { j + 1 };
        assert(backends[i_from].id@ != backends[j_from].id@);
    }
}

proof fn lemma_ids_after_removal(
    before: PoolView,
    id: Seq<char>,
    view: BackendView,
    after: PoolView,
)
    requires
        ids_differ(backends_of(before)),
        before.removes(id, view, after),
    ensures
        ids_differ(backends_of(after)),
        forall|other: Seq<char>| #[trigger]
            any_has_id(backends_of(after), other) ==> any_has_id(backends_of(before), other),
{
    let k = choose|k: int| #[trigger] before.finds(id, k) && after == before.removed(k);
    assert(before.has_id(id, k));
    assert(backends_of(after) =~= backends_of(before).remove(k));
    lemma_ids_after_remove(backends_of(before), k);
}

proof fn lemma_step_keeps_ids(
    before: StateView,
    events: Seq<StateEvent>,
    event: StateEvent,
    after: StateView,
)
    requires
        before.wf(),
        all_ids_differ(before),
        all_were_added(backends_of(before.http), events),
        all_were_added(backends_of(before.ws), events),
        state_step(before, event, after),
        event matches StateEvent::Added(backend) ==> !was_added(events, backend.id@),
    ensures
        all_ids_differ(after),
        all_were_added(backends_of(after.http), events.push(event)),
        all_were_added(backends_of(after.ws), events.push(event)),
{
    lemma_more_were_added(events, event);
    match event {
        StateEvent::Added(backend) => {
            assert(adds_id(events.push(event)[events.len() as int], backend.id@));
            assert(was_added(events.push(event), backend.id@));
            if backend.scheme.spec_is_http() {
                assert(backends_of(after.http) =~= backends_of(before.http).push(backend));
                lemma_ids_after_push(backends_of(before.http), backend);
            } else {
                assert(backends_of(after.ws) =~= backends_of(before.ws).push(backend));
                lemma_ids_after_push(backends_of(before.ws), backend);
            }
        },
        StateEvent::Removed(id, Some(view)) => {
            if before.http.knows(id) {
                lemma_ids_after_removal(before.http, id, view, after.http);
            } else {
                lemma_ids_after_removal(before.ws, id, view, after.ws);
            }
        },
        StateEvent::Removed(_, None) => {},
        _ => {
            lemma_backends_stay(before, event, after);
        },
    }
}

proof fn lemma_backends_stay(before: StateView, event: StateEvent, after: StateView)
    requires
        before.wf(),
        state_step(before, event, after),
        !(event is Added),
        !(event is Removed),
    ensures
        backends_of(after.http) == backends_of(before.http),
        backends_of(after.ws) == backends_of(before.ws),
{
    match event {
        StateEvent::AskedHttp(mode, outcome) => {
            law_limit_is_kept(before.http, mode, outcome, after.http);
        },
        StateEvent::AskedWs(mode, outcome) => {
            law_limit_is_kept(before.ws, mode, outcome, after.ws);
        },
        StateEvent::ReleasedHttp(id) => {
            if before.http.knows(id) {
                let i = choose|i: int| #[trigger]
                    before.http.finds(id, i) && after.http == before.http.released(i);
                assert(before.http.has_id(id, i));
            }
        },
        StateEvent::ReleasedWs(id) => {
            if before.ws.knows(id) {
                let i = choose|i: int| #[trigger]
                    before.ws.finds(id, i) && after.ws == before.ws.released(i);
                assert(before.ws.has_id(id, i));
            }
        },
        _ => {},
    }
    assert(backends_of(after.http) =~= backends_of(before.http));
    assert(backends_of(after.ws) =~= backends_of(before.ws));
}

proof fn lemma_run_is_recorded(states: Seq<StateView>, events: Seq<StateEvent>, n: int)
    requires
        state_runs(states, events),
        0 <= n <= events.len(),
    ensures
        states[n].wf(),
        backends_of(states[n].http) == registered(events.take(n), true),
        backends_of(states[n].ws) == registered(events.take(n), false),
    decreases n,
{
    if n == 0 {
        assert(events.take(0).len() == 0);
        assert(backends_of(states[0].http) =~= Seq::<Backend>::empty());
        assert(backends_of(states[0].ws) =~= Seq::<Backend>::empty());
    } else {
        lemma_run_is_recorded(states, events, n - 1);
        let event = events[n - 1];
        assert(events.take(n) =~= events.take(n - 1).push(event));
        law_operations_keep_the_state_valid(states[n - 1], event, states[n]);
        lemma_step_is_recorded(states[n - 1], events.take(n - 1), event, states[n]);
    }
}

proof fn lemma_run_keeps_ids(states: Seq<StateView>, events: Seq<StateEvent>, n: int)
    requires
        state_runs(states, events),
        ids_do_not_collide(events),
        0 <= n <= events.len(),
    ensures
        all_ids_differ(states[n]),
        all_were_added(backends_of(states[n].http), events.take(n)),
        all_were_added(backends_of(states[n].ws), events.take(n)),
    decreases n,
{
    if n > 0 {
        lemma_run_keeps_ids(states, events, n - 1);
        lemma_run_is_recorded(states, events, n - 1);
        let event = events[n - 1];
        assert(events.take(n) =~= events.take(n - 1).push(event));
        lemma_step_keeps_ids(states[n - 1], events.take(n - 1), event, states[n]);
    }
}

/// The state is well-formed after any operations on a new proxy.
pub proof fn law_every_state_is_valid(states: Seq<StateView>, events: Seq<StateEvent>)
    requires
        state_runs(states, events),
    ensures
        states.last().wf(),
{
    lemma_run_is_recorded(states, events, events.len() as int);
}

/// No two backends have the same id, in whatever pools they are, as long as the ids that they were
/// given do not collide.
pub proof fn law_ids_stay_different(states: Seq<StateView>, events: Seq<StateEvent>)
    requires
        state_runs(states, events),
        ids_do_not_collide(events),
    ensures
        all_ids_differ(states.last()),
        all_were_added(backends_of(states.last().http), events),
        all_were_added(backends_of(states.last().ws), events),
{
    lemma_run_keeps_ids(states, events, events.len() as int);
    assert(events.take(events.len() as int) =~= events);
}

/// A listing holds exactly the backends that were added and not removed, those for requests and
/// those for WebSocket connections apart, in the order in which they were added; each has the
/// protocol of its URL and takes connections.
pub proof fn law_listing_holds_the_registered_backends(
    states: Seq<StateView>,
    events: Seq<StateEvent>,
    http: Seq<BackendView>,
    ws: Seq<BackendView>,
)
    requires
        state_runs(states, events),
        lists(http, states.last().http),
        lists(ws, states.last().ws),
    ensures
        http.len() == registered(events, true).len(),
        forall|i: int|
            0 <= i < http.len() ==> {
                &&& #[trigger] http[i] == view_of(
                    registered(events, true)[i],
                    http[i].active_connections,
                )
                &&& well_placed(registered(events, true)[i], true)
            },
        ws.len() == registered(events, false).len(),
        forall|i: int|
            0 <= i < ws.len() ==> {
                &&& #[trigger] ws[i] == view_of(
                    registered(events, false)[i],
                    ws[i].active_connections,
                )
                &&& well_placed(registered(events, false)[i], false)
            },
{
    let last = states.last();
    lemma_run_is_recorded(states, events, events.len() as int);
    assert(events.take(events.len() as int) =~= events);
    assert forall|i: int| 0 <= i < http.len() implies {
        &&& #[trigger] http[i] == view_of(registered(events, true)[i], http[i].active_connections)
        &&& well_placed(registered(events, true)[i], true)
    } by {
        assert(backends_of(last.http)[i] == last.http.entries[i].backend);
        assert(well_placed(last.http.entries[i].backend, true));
    }
    assert forall|i: int| 0 <= i < ws.len() implies {
        &&& #[trigger] ws[i] == view_of(registered(events, false)[i], ws[i].active_connections)
        &&& well_placed(registered(events, false)[i], false)
    } by {
        assert(backends_of(last.ws)[i] == last.ws.entries[i].backend);
        assert(well_placed(last.ws.entries[i].backend, false));
    }
}

/// How many leases of the backend with the given id, of those for requests or of those for
/// WebSocket connections, were taken and not given back.
pub open spec fn open_leases(events: Seq<StateEvent>, http: bool, id: Seq<char>) -> int
    decreases events.len(),
{
    if events.len() == 0 {
        0
    } else {
        open_leases(events.drop_last(), http, id) + match events.last() {
            StateEvent::AskedHttp(_, Acquisition::Leased(lease)) => if http && lease@.id@ == id {
                1int
            } else {
                0
            },
            StateEvent::AskedWs(_, Acquisition::Leased(lease)) => if !http && lease@.id@ == id {
                1int
            } else {
                0
            },
            StateEvent::ReleasedHttp(released) => if http && released == id {
                -1int
            } else {
                0
            },
            StateEvent::ReleasedWs(released) => if !http && released == id {
                -1int
            } else {
                0
            },
            _ => 0,
        }
    }
}

/// Whether only leases are given back that were taken, each of them once, and there are never more
/// of one backend than can be counted.
pub open spec fn all_leases_are_kept(events: Seq<StateEvent>) -> bool {
    &&& forall|i: int|
        #![trigger events[i]]
        0 <= i < events.len() ==> {
            &&& events[i] matches StateEvent::ReleasedHttp(id) ==> open_leases(
                events.take(i),
                true,
                id,
            ) > 0
            &&& events[i] matches StateEvent::ReleasedWs(id) ==> open_leases(
                events.take(i),
                false,
                id,
            ) > 0
        }
    &&& forall|i: int, http: bool, id: Seq<char>|
        0 <= i <= events.len() ==> #[trigger] open_leases(events.take(i), http, id) <= usize::MAX
}

/// What an operation does to one of the pools, if anything.
spec fn pool_event(event: StateEvent, http: bool) -> Option<PoolEvent> {
    match event {
        StateEvent::Added(backend) => if backend.scheme.spec_is_http() == http {
            Some(PoolEvent::Added(backend))
        } else {
            None
        },
        StateEvent::Removed(id, Some(view)) => if view.scheme.spec_is_http() == http {
            Some(PoolEvent::Removed(id, Some(view)))
        } else {
            None
        },
        StateEvent::AskedHttp(mode, outcome) => if http {
            Some(PoolEvent::Asked(mode, outcome))
        } else {
            None
        },
        StateEvent::AskedWs(mode, outcome) => if !http {
            Some(PoolEvent::Asked(mode, outcome))
        } else {
            None
        },
        StateEvent::ReleasedHttp(id) => if http {
            Some(PoolEvent::Released(id))
        } else {
            None
        },
        StateEvent::ReleasedWs(id) => if !http {
            Some(PoolEvent::Released(id))
        } else {
            None
        },
        _ => None,
    }
}

/// What the operations do to one of the pools.
spec fn pool_events(events: Seq<StateEvent>, http: bool) -> Seq<PoolEvent>
    decreases events.len(),
{
    if events.len() == 0 {
        Seq::empty()
    } else {
        match pool_event(events.last(), http) {
            Some(event) => pool_events(events.drop_last(), http).push(event),
            None => pool_events(events.drop_last(), http),
        }
    }
}

proof fn lemma_leases_of_a_pool(events: Seq<StateEvent>, http: bool, id: Seq<char>)
    ensures
        outstanding(pool_events(events, http), id) == open_leases(events, http, id),
    decreases events.len(),
{
    if events.len() > 0 {
        let earlier = events.drop_last();
        lemma_leases_of_a_pool(earlier, http, id);
        match pool_event(events.last(), http) {
            Some(event) => {
                assert(pool_events(earlier, http).push(event).drop_last() =~= pool_events(
                    earlier,
                    http,
                ));
            },
            None => {},
        }
    }
}

proof fn lemma_added_to_a_pool(events: Seq<StateEvent>, http: bool, id: Seq<char>)
    requires
        crate::pool_history::was_added(pool_events(events, http), id),
    ensures
        was_added(events, id),
    decreases events.len(),
{
    let all = pool_events(events, http);
    let i = choose|i: int|
        0 <= i < all.len() && crate::pool_history::adds_id(#[trigger] all[i], id);
    assert(events.len() > 0);
    let earlier = events.drop_last();
    let n = events.len() - 1;
    let before = pool_events(earlier, http);
    if i < before.len() {
        assert(before[i] == all[i]);
        lemma_added_to_a_pool(earlier, http, id);
        let j = choose|j: int| 0 <= j < earlier.len() && adds_id(#[trigger] earlier[j], id);
        assert(adds_id(events[j], id));
    } else {
        assert(adds_id(events[n], id));
    }
}

proof fn lemma_pool_stays_counted(
    before: StateView,
    events: Seq<StateEvent>,
    event: StateEvent,
    after: StateView,
    http: bool,
)
    requires
        before.wf(),
        state_step(before, event, after),
        event matches StateEvent::Added(backend) ==> !was_added(events, backend.id@),
        event matches StateEvent::ReleasedHttp(id) ==> open_leases(events, true, id) > 0,
        event matches StateEvent::ReleasedWs(id) ==> open_leases(events, false, id) > 0,
        forall|id: Seq<char>| #[trigger] open_leases(events.push(event), http, id) <= usize::MAX,
        counted(
            if http {
                before.http
            } else {
                before.ws
            },
            pool_events(events, http),
        ),
    ensures
        counted(
            if http {
                after.http
            } else {
                after.ws
            },
            pool_events(events.push(event), http),
        ),
{
    let pool_before = if http {
        before.http
    } else {
        before.ws
    };
    let pool_after = if http {
        after.http
    } else {
        after.ws
    };
    let all = events.push(event);
    assert(all.drop_last() =~= events);
    if let StateEvent::Removed(id, Some(view)) = event {
        if before.http.knows(id) {
            let i = choose|i: int|
                {
                    &&& #[trigger] before.http.finds(id, i)
                    &&& after.http == before.http.removed(i)
                    &&& view == view_of(
                        before.http.entries[i].backend,
                        before.http.entries[i].active,
                    )
                };
            assert(before.http.has_id(id, i));
            assert(well_placed(before.http.entries[i].backend, true));
        } else {
            let i = choose|i: int|
                {
                    &&& #[trigger] before.ws.finds(id, i)
                    &&& after.ws == before.ws.removed(i)
                    &&& view == view_of(before.ws.entries[i].backend, before.ws.entries[i].active)
                };
            assert(before.ws.has_id(id, i));
            assert(well_placed(before.ws.entries[i].backend, false));
        }
    }
    match pool_event(event, http) {
        Some(pool_event) => {
            assert(pool_step(pool_before, pool_event, pool_after));
            if let StateEvent::Added(backend) = event {
                if crate::pool_history::was_added(pool_events(events, http), backend.id@) {
                    lemma_added_to_a_pool(events, http, backend.id@);
                }
            }
            if let PoolEvent::Released(id) = pool_event {
                lemma_leases_of_a_pool(events, http, id);
            }
            assert forall|id: Seq<char>| #[trigger]
                outstanding(pool_events(events, http).push(pool_event), id) <= usize::MAX by {
                lemma_leases_of_a_pool(all, http, id);
                assert(open_leases(all, http, id) <= usize::MAX);
            }
            lemma_step_counts(pool_before, pool_events(events, http), pool_event, pool_after);
        },
        None => {
            assert(pool_after == pool_before);
        },
    }
}

proof fn lemma_run_stays_counted(states: Seq<StateView>, events: Seq<StateEvent>, n: int)
    requires
        state_runs(states, events),
        ids_do_not_collide(events),
        all_leases_are_kept(events),
        0 <= n <= events.len(),
    ensures
        counted(states[n].http, pool_events(events.take(n), true)),
        counted(states[n].ws, pool_events(events.take(n), false)),
    decreases n,
{
    if n == 0 {
        assert(events.take(0).len() == 0);
    } else {
        lemma_run_stays_counted(states, events, n - 1);
        lemma_run_is_recorded(states, events, n - 1);
        let event = events[n - 1];
        let earlier = events.take(n - 1);
        assert(events.take(n) =~= earlier.push(event));
        assert forall|http: bool, id: Seq<char>| #[trigger]
            open_leases(earlier.push(event), http, id) <= usize::MAX by {
            assert(open_leases(events.take(n), http, id) <= usize::MAX);
        }
        lemma_pool_stays_counted(states[n - 1], earlier, event, states[n], true);
        lemma_pool_stays_counted(states[n - 1], earlier, event, states[n], false);
    }
}

/// A listing reports as the active connections of a backend the number of its leases that were
/// taken and not given back, in every state that a new proxy gets into.
pub proof fn law_listing_reports_the_leases(
    states: Seq<StateView>,
    events: Seq<StateEvent>,
    http: Seq<BackendView>,
    ws: Seq<BackendView>,
)
    requires
        state_runs(states, events),
        ids_do_not_collide(events),
        all_leases_are_kept(events),
        lists(http, states.last().http),
        lists(ws, states.last().ws),
    ensures
        forall|i: int|
            0 <= i < http.len() ==> (#[trigger] http[i]).active_connections == open_leases(
                events,
                true,
                http[i].id@,
            ),
        forall|i: int|
            0 <= i < ws.len() ==> (#[trigger] ws[i]).active_connections == open_leases(
                events,
                false,
                ws[i].id@,
            ),
{
    let last = states.last();
    lemma_run_stays_counted(states, events, events.len() as int);
    assert(events.take(events.len() as int) =~= events);
    assert forall|i: int| 0 <= i < http.len() implies (#[trigger] http[i]).active_connections
        == open_leases(events, true, http[i].id@) by {
        assert(http[i] == view_of(last.http.entries[i].backend, last.http.entries[i].active));
        lemma_leases_of_a_pool(events, true, last.http.entries[i].backend.id@);
    }
    assert forall|i: int| 0 <= i < ws.len() implies (#[trigger] ws[i]).active_connections
        == open_leases(events, false, ws[i].id@) by {
        assert(ws[i] == view_of(last.ws.entries[i].backend, last.ws.entries[i].active));
        lemma_leases_of_a_pool(events, false, last.ws.entries[i].backend.id@);
    }
}

} // verus!
