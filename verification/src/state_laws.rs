//! What the backends are, which of them are accepted, and what is reported on them.

use crate::backend::{scheme_named, view_of, Backend, BackendScheme, BackendView};
use crate::pool::PoolView;
use crate::state::{is_random_uuid, lists, refusal, well_placed, StateView};
use crate::urls::BackendUrl;
use vstd::prelude::*;

verus! {

/// The protocols have the names `http`, `https`, `ws` and `wss`, and no other text names one; the
/// first two are those of requests, and the others those of WebSocket connections.
pub proof fn law_four_names_are_protocols(name: Seq<char>)
    ensures
        scheme_named(name) == Some(BackendScheme::Http) <==> name == "http"@,
        scheme_named(name) == Some(BackendScheme::Https) <==> name == "https"@,
        scheme_named(name) == Some(BackendScheme::Ws) <==> name == "ws"@,
        scheme_named(name) == Some(BackendScheme::Wss) <==> name == "wss"@,
        BackendScheme::Http.spec_is_http(),
        BackendScheme::Https.spec_is_http(),
        !BackendScheme::Ws.spec_is_http(),
        !BackendScheme::Wss.spec_is_http(),
{
    reveal_strlit("http");
    reveal_strlit("https");
    reveal_strlit("ws");
    reveal_strlit("wss");
    assert("http"@.len() == 4);
    assert("https"@.len() == 5);
    assert("ws"@.len() == 2);
    assert("wss"@.len() == 3);
}

/// A backend is accepted exactly where its URL has one of the four schemes and its limit, if it has
/// one, is not zero, whatever else the URL holds and however large the limit is. One that is not is
/// refused for its scheme first.
pub proof fn law_backends_are_refused_for_two_reasons(
    url: BackendUrl,
    max_connections: Option<usize>,
)
    ensures
        refusal(url, max_connections) is None <==> {
            &&& url@.scheme == "http"@ || url@.scheme == "https"@ || url@.scheme == "ws"@
                || url@.scheme == "wss"@
            &&& max_connections is None || max_connections->0 > 0
        },
        url@.scheme != "http"@ && url@.scheme != "https"@ && url@.scheme != "ws"@ && url@.scheme
            != "wss"@ ==> refusal(url, max_connections) == Some(
            "unsupported backend scheme: "@ + url@.scheme,
        ),
        refusal(url, max_connections) is Some && (url@.scheme == "http"@ || url@.scheme
            == "https"@ || url@.scheme == "ws"@ || url@.scheme == "wss"@) ==> refusal(
            url,
            max_connections,
        ) == Some("max_connections must be > 0"@),
{
}

/// A report gives the id, the URL, the protocol and the limit of the backend as they are, and the
/// count of its connections as it is, however large.
pub proof fn law_reports_are_true(backend: Backend, active: usize)
    ensures
        view_of(backend, active).id == backend.id,
        view_of(backend, active).url == backend.url,
        view_of(backend, active).scheme == backend.scheme,
        view_of(backend, active).max_connections == backend.max_connections,
        view_of(backend, active).active_connections == active,
{
}

/// A listing has one report for each backend, at its place, with what the pool holds of it.
pub proof fn law_listing_reports_each_backend(views: Seq<BackendView>, pool: PoolView, i: int)
    requires
        lists(views, pool),
    ensures
        views.len() == pool.entries.len(),
        0 <= i < views.len() ==> {
            &&& views[i].id == pool.entries[i].backend.id
            &&& views[i].url == pool.entries[i].backend.url
            &&& views[i].scheme == pool.entries[i].backend.scheme
            &&& views[i].max_connections == pool.entries[i].backend.max_connections
            &&& views[i].active_connections == pool.entries[i].active
        },
{
    if 0 <= i < views.len() {
        assert(views[i] == view_of(pool.entries[i].backend, pool.entries[i].active));
    }
}

/// A backend that is added stands last in the pool for its protocol, without connections; the other
/// pool, the turns and the mode stay as they are.
pub proof fn law_backend_is_added_to_the_pool_of_its_protocol(state: StateView, backend: Backend)
    ensures
        ({
            let after = state.added(backend);
            let http = backend.scheme == BackendScheme::Http || backend.scheme
                == BackendScheme::Https;
            let (old_pool, new_pool) = if http {
                (state.http, after.http)
            } else {
                (state.ws, after.ws)
            };
            &&& new_pool.entries.len() == old_pool.entries.len() + 1
            &&& new_pool.entries.last().backend == backend
            &&& new_pool.entries.last().active == 0
            &&& new_pool.entries.drop_last() == old_pool.entries
            &&& new_pool.cursor == old_pool.cursor
            &&& http ==> after.ws == state.ws
            &&& !http ==> after.http == state.http
            &&& after.mode == state.mode
        }),
{
    let after = state.added(backend);
    assert(after.http.entries.len() > state.http.entries.len() ==> after.http.entries.drop_last()
        =~= state.http.entries);
    assert(after.ws.entries.len() > state.ws.entries.len() ==> after.ws.entries.drop_last()
        =~= state.ws.entries);
}

/// A removal is of a backend for requests where one has the id, and else of one for WebSocket
/// connections; the other pool and the mode stay as they are.
pub proof fn law_removal_is_from_one_pool(
    state: StateView,
    id: Seq<char>,
    view: BackendView,
    after: StateView,
    i: int,
)
    requires
        state.removes(id, view, after),
    ensures
        after.mode == state.mode,
        0 <= i < state.http.entries.len() && state.http.entries[i].backend.id@ == id ==> {
            &&& state.http.removes(id, view, after.http)
            &&& after.ws == state.ws
        },
        (forall|j: int|
            0 <= j < state.http.entries.len() ==> (
            #[trigger] state.http.entries[j]).backend.id@ != id) ==> {
            &&& state.ws.removes(id, view, after.ws)
            &&& after.http == state.http
        },
{
    crate::pool_laws::law_backends_are_found_by_id(state.http, id, i);
}

/// An id is known exactly where a backend of one of the pools has it.
pub proof fn law_ids_of_both_pools_are_known(state: StateView, id: Seq<char>)
    ensures
        state.knows(id) <==> {
            ||| exists|i: int|
                0 <= i < state.http.entries.len() && (
                #[trigger] state.http.entries[i]).backend.id@ == id
            ||| exists|i: int|
                0 <= i < state.ws.entries.len() && (
                #[trigger] state.ws.entries[i]).backend.id@ == id
        },
{
    assert forall|i: int|
        0 <= i < state.http.entries.len() && (#[trigger] state.http.entries[i]).backend.id@
            == id implies state.http.knows(id) by {
        crate::pool_laws::law_backends_are_found_by_id(state.http, id, i);
    }
    assert forall|i: int|
        0 <= i < state.ws.entries.len() && (#[trigger] state.ws.entries[i]).backend.id@
            == id implies state.ws.knows(id) by {
        crate::pool_laws::law_backends_are_found_by_id(state.ws, id, i);
    }
    crate::pool_laws::law_backends_are_found_by_id(state.http, id, 0);
    crate::pool_laws::law_backends_are_found_by_id(state.ws, id, 0);
}

/// In a valid state every backend has the protocol that its URL names, stands in the pool for it,
/// and takes at least one connection.
pub proof fn law_backends_of_a_valid_state(state: StateView, i: int)
    requires
        state.wf(),
    ensures
        state.http.wf(),
        state.ws.wf(),
        0 <= i < state.http.entries.len() ==> {
            let backend = state.http.entries[i].backend;
            &&& backend.scheme == BackendScheme::Http && backend.url@.scheme == "http"@
                || backend.scheme == BackendScheme::Https && backend.url@.scheme == "https"@
            &&& backend.max_connections is Some ==> backend.max_connections->0 > 0
        },
        0 <= i < state.ws.entries.len() ==> {
            let backend = state.ws.entries[i].backend;
            &&& backend.scheme == BackendScheme::Ws && backend.url@.scheme == "ws"@
                || backend.scheme == BackendScheme::Wss && backend.url@.scheme == "wss"@
            &&& backend.max_connections is Some ==> backend.max_connections->0 > 0
        },
{
    if 0 <= i < state.http.entries.len() {
        assert(well_placed(state.http.entries[i].backend, true));
        law_four_names_are_protocols(state.http.entries[i].backend.url@.scheme);
    }
    if 0 <= i < state.ws.entries.len() {
        assert(well_placed(state.ws.entries[i].backend, false));
        law_four_names_are_protocols(state.ws.entries[i].backend.url@.scheme);
    }
}

/// The id of a backend that is added has 36 characters: hyphens at four places, lower-case
/// hexadecimal digits at all others, and among these the signs of a random UUID.
pub proof fn law_random_ids_are_uuids(id: Seq<char>, i: int)
    requires
        is_random_uuid(id),
        0 <= i < 36,
    ensures
        id.len() == 36,
        id[i] == '-' <==> i == 8 || i == 13 || i == 18 || i == 23,
        id[i] == '-' || '0' <= id[i] <= '9' || 'a' <= id[i] <= 'f',
        id[14] == '4',
        id[19] == '8' || id[19] == '9' || id[19] == 'a' || id[19] == 'b',
{
}

} // verus!
