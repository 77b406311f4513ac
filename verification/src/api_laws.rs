//! What holds of the management API across its requests.

use crate::api::{
    answers_api, id_in_path, route_of, AddBackendRequest, ApiBody, ApiPayload, ApiResponse, ApiRoute,
};
use crate::backend::{scheme_named, view_of, Backend, BackendScheme};
use crate::balancer::{mode_from_text, LoadBalancingMode};
use crate::pool_laws::{law_backends_are_found_by_id, law_removal_takes_out_one};
use crate::state::StateView;
use crate::state_history::{
    all_leases_are_kept, ids_do_not_collide, law_listing_reports_the_leases, open_leases, state_runs,
    StateEvent,
};
use crate::state_laws::{
    law_backend_is_added_to_the_pool_of_its_protocol, law_backends_are_refused_for_two_reasons,
    law_four_names_are_protocols, law_ids_of_both_pools_are_known, law_listing_reports_each_backend,
    law_removal_is_from_one_pool, law_reports_are_true,
};
use crate::text::{ascii_lower, trimmed};
use crate::text_laws::law_modes_have_five_names;
use vstd::prelude::*;

verus! {

/// A request that is refused changes nothing, and is answered with the status of an error.
pub proof fn law_refused_request_changes_nothing(
    before: StateView,
    method: Seq<char>,
    path: Seq<char>,
    body: ApiBody,
    r: ApiResponse,
    after: StateView,
)
    requires
        answers_api(before, method, path, body, r, after),
    ensures
        r.payload is Error ==> after == before,
        r.payload is Error <==> r.status >= 400,
{
}

/// A request that only reads changes nothing and is never refused, if its endpoint is known.
pub proof fn law_reading_changes_nothing(
    before: StateView,
    path: Seq<char>,
    body: ApiBody,
    r: ApiResponse,
    after: StateView,
)
    requires
        answers_api(before, "GET"@, path, body, r, after),
    ensures
        after == before,
        r.status == 200 || r.status == 404,
        r.status == 404 <==> route_of("GET"@, path) == ApiRoute::Unknown,
{
    reveal_strlit("GET");
    reveal_strlit("POST");
    reveal_strlit("DELETE");
    reveal_strlit("PUT");
    assert("GET"@.len() == 3);
    assert("POST"@.len() == 4);
    assert("DELETE"@.len() == 6);
    assert("GET"@[0] != "PUT"@[0]);
}

/// Every known endpoint lies under `/api/`.
pub proof fn law_endpoints_lie_under_api(method: Seq<char>, path: Seq<char>)
    ensures
        route_of(method, path) != ApiRoute::Unknown ==> "/api/"@.is_prefix_of(path),
{
    reveal_strlit("/api/");
    reveal_strlit("/api/health");
    reveal_strlit("/api/backends");
    reveal_strlit("/api/backends/");
    reveal_strlit("/api/balancer");
    assert("/api/"@.is_prefix_of("/api/health"@));
    assert("/api/"@.is_prefix_of("/api/backends"@));
    assert("/api/"@.is_prefix_of("/api/balancer"@));
    assert("/api/"@.is_prefix_of("/api/backends/"@));
    if "/api/backends/"@.is_prefix_of(path) {
        assert forall|i: int| 0 <= i < "/api/"@.len() implies "/api/"@[i] == path[i] by {
            assert("/api/backends/"@[i] == path[i]);
        }
    }
}

/// The mode that was set is the mode that is read afterwards.
pub proof fn law_mode_set_is_mode_read(
    before: StateView,
    body: ApiBody,
    set: ApiResponse,
    after: StateView,
    read_body: ApiBody,
    read: ApiResponse,
    end: StateView,
)
    requires
        answers_api(before, "PUT"@, "/api/balancer"@, body, set, after),
        answers_api(after, "GET"@, "/api/balancer"@, read_body, read, end),
    ensures
        set.status == 200 ==> {
            &&& body->SetBalancer_0 matches Ok(request)
            &&& mode_from_text(request.mode@) == Some(after.mode)
            &&& set.gives_mode(after.mode)
        },
        set.status != 200 ==> after.mode == before.mode,
        read.gives_mode(after.mode),
{
    lemma_balancer_routes();
}

proof fn lemma_balancer_routes()
    ensures
        route_of("PUT"@, "/api/balancer"@) == ApiRoute::SetBalancer,
        route_of("GET"@, "/api/balancer"@) == ApiRoute::GetBalancer,
{
    reveal_strlit("GET");
    reveal_strlit("POST");
    reveal_strlit("DELETE");
    reveal_strlit("PUT");
    reveal_strlit("/api/health");
    reveal_strlit("/api/backends");
    reveal_strlit("/api/backends/");
    reveal_strlit("/api/balancer");
    assert("GET"@[0] == 'G');
    assert("PUT"@[0] == 'P');
    assert("PUT"@.len() == 3);
    assert("POST"@.len() == 4);
    assert("DELETE"@.len() == 6);
    assert("/api/balancer"@[6] == 'a');
    assert("/api/backends"@[6] == 'a');
    assert("/api/balancer"@[7] == 'l');
    assert("/api/backends"@[7] == 'c');
    assert("/api/health"@.len() == 11);
    assert("/api/balancer"@.len() == 13);
}

proof fn lemma_backend_routes(id: Seq<char>)
    ensures
        route_of("GET"@, "/api/backends"@) == ApiRoute::ListBackends,
        route_of("POST"@, "/api/backends"@) == ApiRoute::AddBackend,
        route_of("DELETE"@, "/api/backends/"@ + id) == ApiRoute::RemoveBackend,
{
    reveal_strlit("GET");
    reveal_strlit("POST");
    reveal_strlit("DELETE");
    reveal_strlit("/api/health");
    reveal_strlit("/api/backends");
    assert("GET"@.len() == 3);
    assert("POST"@.len() == 4);
    assert("DELETE"@.len() == 6);
    assert("/api/health"@.len() == 11);
    assert("/api/backends"@.len() == 13);
    assert("/api/backends/"@.is_prefix_of("/api/backends/"@ + id));
}

/// A backend that was added is listed last among those of its kind, without connections.
pub proof fn law_added_backend_is_listed(
    before: StateView,
    body: ApiBody,
    added: ApiResponse,
    after: StateView,
    list_body: ApiBody,
    listing: ApiResponse,
    end: StateView,
)
    requires
        answers_api(before, "POST"@, "/api/backends"@, body, added, after),
        added.status == 201,
        answers_api(after, "GET"@, "/api/backends"@, list_body, listing, end),
    ensures
        added.payload matches ApiPayload::Backend(view) && listing.payload
            matches ApiPayload::Backends { mode, http, ws } && view.active_connections == 0 && (
        if view.scheme.spec_is_http() {
            http@.len() == before.http.entries.len() + 1 && http@.last() == view
        } else {
            ws@.len() == before.ws.entries.len() + 1 && ws@.last() == view
        }),
{
    lemma_backend_routes(seq![]);
}

/// The path of a request to remove a backend gives the id that stands in it, whatever that is.
pub proof fn law_id_is_read_from_path(id: Seq<char>)
    ensures
        id_in_path("/api/backends/"@ + id) == id,
{
    assert(id_in_path("/api/backends/"@ + id) =~= id);
}

/// A backend that was added under an id that is not empty and that no other backend has can be
/// removed under it: the removal is answered with the backend, and leaves the state as it was
/// before the backend was added.
pub proof fn law_added_backend_can_be_removed(
    before: StateView,
    body: ApiBody,
    added: ApiResponse,
    after: StateView,
    remove_body: ApiBody,
    removed: ApiResponse,
    end: StateView,
    id: Seq<char>,
)
    requires
        before.wf(),
        !before.knows(id),
        id.len() > 0,
        answers_api(before, "POST"@, "/api/backends"@, body, added, after),
        added.payload matches ApiPayload::Backend(view) && view.id@ == id,
        answers_api(after, "DELETE"@, "/api/backends/"@ + id, remove_body, removed, end),
    ensures
        removed.status == 200,
        removed.payload == added.payload,
        end == before,
{
    lemma_backend_routes(id);
    law_id_is_read_from_path(id);
    let view = added.payload->Backend_0;
    let request = (body->AddBackend_0)->Ok_0;
    let backend = Backend {
        id: view.id,
        url: request.url,
        scheme: view.scheme,
        max_connections: request.max_connections,
    };
    assert(after == before.added(backend));
    crate::state::law_remove_undoes_add(before, backend);
    assert(after.removes(id, removed.payload->Backend_0, end));
    if backend.scheme.spec_is_http() {
        let n = before.http.entries.len() as int;
        crate::pool_laws::law_remove_undoes_add(before.http, backend);
        assert(after.http.has_id(id, n));
        let i = choose|i: int|
            {
                &&& #[trigger] after.http.finds(id, i)
                &&& removed.payload->Backend_0 == view_of(
                    after.http.entries[i].backend,
                    after.http.entries[i].active,
                )
                &&& end == StateView { http: after.http.removed(i), ..after }
            };
        assert(after.http.has_id(id, i));
        assert(i == n);
    } else {
        let n = before.ws.entries.len() as int;
        crate::pool_laws::law_remove_undoes_add(before.ws, backend);
        assert(after.ws.has_id(id, n));
        assert(!after.http.knows(id));
        let i = choose|i: int|
            {
                &&& #[trigger] after.ws.finds(id, i)
                &&& removed.payload->Backend_0 == view_of(
                    after.ws.entries[i].backend,
                    after.ws.entries[i].active,
                )
                &&& end == StateView { ws: after.ws.removed(i), ..after }
            };
        assert(after.ws.has_id(id, i));
        assert(i == n);
    }
}

/// Every request to add a backend with one of the four schemes and with a limit that is not zero,
/// or without one, is answered with the new backend as it was asked for; the backend stands last in
/// the pool for its protocol, and nothing else changes.
pub proof fn law_every_usual_backend_is_added(
    before: StateView,
    body: ApiBody,
    request: AddBackendRequest,
    r: ApiResponse,
    after: StateView,
)
    requires
        answers_api(before, "POST"@, "/api/backends"@, body, r, after),
        body == ApiBody::AddBackend(Ok(request)),
        request.url@.scheme == "http"@ || request.url@.scheme == "https"@ || request.url@.scheme
            == "ws"@ || request.url@.scheme == "wss"@,
        request.max_connections is None || request.max_connections->0 > 0,
    ensures
        r.status == 201,
        r.payload matches ApiPayload::Backend(view) && {
            let http = request.url@.scheme == "http"@ || request.url@.scheme == "https"@;
            let pool = if http {
                after.http
            } else {
                after.ws
            };
            let entry = pool.entries.last();
            &&& view.url == request.url
            &&& view.max_connections == request.max_connections
            &&& view.active_connections == 0
            &&& request.url@.scheme == "http"@ ==> view.scheme == BackendScheme::Http
            &&& request.url@.scheme == "https"@ ==> view.scheme == BackendScheme::Https
            &&& request.url@.scheme == "ws"@ ==> view.scheme == BackendScheme::Ws
            &&& request.url@.scheme == "wss"@ ==> view.scheme == BackendScheme::Wss
            &&& pool.entries.len() > 0
            &&& entry.backend.id == view.id
            &&& entry.backend.url == request.url
            &&& entry.backend.scheme == view.scheme
            &&& entry.backend.max_connections == request.max_connections
            &&& entry.active == 0
            &&& http ==> after.http.entries.drop_last() == before.http.entries && after.ws
                == before.ws && after.http.cursor == before.http.cursor
            &&& !http ==> after.ws.entries.drop_last() == before.ws.entries && after.http
                == before.http && after.ws.cursor == before.ws.cursor
            &&& after.mode == before.mode
        },
{
    lemma_backend_routes(seq![]);
    law_four_names_are_protocols(request.url@.scheme);
    law_backends_are_refused_for_two_reasons(request.url, request.max_connections);
    let view = r.payload->Backend_0;
    let backend = Backend {
        id: view.id,
        url: request.url,
        scheme: scheme_named(request.url@.scheme)->0,
        max_connections: request.max_connections,
    };
    law_reports_are_true(backend, 0);
    law_backend_is_added_to_the_pool_of_its_protocol(before, backend);
}

/// A request to add a backend is refused where its body cannot be read, where the scheme is none of
/// the four, and where the limit is zero, with the reason; nothing changes.
pub proof fn law_other_backends_are_refused(
    before: StateView,
    body: ApiBody,
    r: ApiResponse,
    after: StateView,
)
    requires
        answers_api(before, "POST"@, "/api/backends"@, body, r, after),
        body is AddBackend,
    ensures
        body->AddBackend_0 matches Err(message) ==> {
            &&& r.status == 400
            &&& r.payload matches ApiPayload::Error(text)
            &&& text@ == "invalid json: "@ + message@
            &&& after == before
        },
        body->AddBackend_0 matches Ok(request) ==> {
            let scheme = request.url@.scheme;
            let unsupported = scheme != "http"@ && scheme != "https"@ && scheme != "ws"@ && scheme
                != "wss"@;
            &&& unsupported || request.max_connections == Some(0usize) ==> r.status == 400 && after
                == before
            &&& unsupported ==> (r.payload matches ApiPayload::Error(text) && text@
                == "unsupported backend scheme: "@ + scheme)
            &&& !unsupported && request.max_connections == Some(0usize) ==> (
            r.payload matches ApiPayload::Error(text) && text@ == "max_connections must be > 0"@)
        },
{
    lemma_backend_routes(seq![]);
    if body->AddBackend_0 is Ok {
        let request = body->AddBackend_0->Ok_0;
        law_backends_are_refused_for_two_reasons(request.url, request.max_connections);
    }
}

/// A request to remove a backend removes the one with the id that stands in the path, and is
/// answered with it as it was; where no backend has the id it is answered with 404, and where the
/// path gives no id with 400, and nothing changes.
pub proof fn law_removal_is_of_the_backend_in_the_path(
    before: StateView,
    body: ApiBody,
    id: Seq<char>,
    r: ApiResponse,
    after: StateView,
    i: int,
)
    requires
        answers_api(before, "DELETE"@, "/api/backends/"@ + id, body, r, after),
    ensures
        id.len() == 0 ==> {
            &&& r.status == 400
            &&& r.payload matches ApiPayload::Error(text)
            &&& text@ == "backend id is required"@
            &&& after == before
        },
        id.len() > 0 && 0 <= i < before.http.entries.len() && before.http.entries[i].backend.id@
            == id ==> {
            &&& r.status == 200
            &&& r.payload matches ApiPayload::Backend(view)
            &&& view.id@ == id
            &&& before.http.removes(id, view, after.http)
            &&& after.ws == before.ws
            &&& after.mode == before.mode
        },
        id.len() > 0 && 0 <= i < before.ws.entries.len() && before.ws.entries[i].backend.id@ == id
            && (forall|j: int|
            0 <= j < before.http.entries.len() ==> (
            #[trigger] before.http.entries[j]).backend.id@ != id) ==> {
            &&& r.status == 200
            &&& r.payload matches ApiPayload::Backend(view)
            &&& view.id@ == id
            &&& before.ws.removes(id, view, after.ws)
            &&& after.http == before.http
            &&& after.mode == before.mode
        },
        id.len() > 0 && (forall|j: int|
            0 <= j < before.http.entries.len() ==> (
            #[trigger] before.http.entries[j]).backend.id@ != id) && (forall|j: int|
            0 <= j < before.ws.entries.len() ==> (
            #[trigger] before.ws.entries[j]).backend.id@ != id) ==> {
            &&& r.status == 404
            &&& r.payload matches ApiPayload::Error(text)
            &&& text@ == "backend not found"@
            &&& after == before
        },
{
    lemma_backend_routes(id);
    law_id_is_read_from_path(id);
    law_ids_of_both_pools_are_known(before, id);
    if before.knows(id) && id.len() > 0 {
        let view = r.payload->Backend_0;
        law_removal_is_from_one_pool(before, id, view, after, i);
        if before.http.knows(id) {
            let k = law_removal_takes_out_one(before.http, id, view, after.http);
        } else {
            let k = law_removal_takes_out_one(before.ws, id, view, after.ws);
            law_backends_are_found_by_id(before.http, id, i);
        }
    }
}

/// The other requests: what is up says so; the listing has the mode and every backend of each pool;
/// the mode is given by its name; and any other method or path is answered with 404. None of them
/// changes anything.
pub proof fn law_reading_gives_what_is_there(
    before: StateView,
    path: Seq<char>,
    body: ApiBody,
    r: ApiResponse,
    after: StateView,
    i: int,
)
    requires
        answers_api(before, "GET"@, path, body, r, after),
    ensures
        after == before,
        path == "/api/health"@ ==> r.status == 200 && r.payload is Health,
        path == "/api/balancer"@ ==> {
            &&& r.status == 200
            &&& r.payload matches ApiPayload::Balancer { mode }
            &&& before.mode == LoadBalancingMode::LeastConn ==> mode@ == "leastconn"@
            &&& before.mode == LoadBalancingMode::Queue ==> mode@ == "queue"@
        },
        path == "/api/backends"@ ==> {
            &&& r.status == 200
            &&& r.payload matches ApiPayload::Backends { mode, http, ws }
            &&& before.mode == LoadBalancingMode::LeastConn ==> mode@ == "leastconn"@
            &&& before.mode == LoadBalancingMode::Queue ==> mode@ == "queue"@
            &&& http@.len() == before.http.entries.len()
            &&& ws@.len() == before.ws.entries.len()
            &&& 0 <= i < http@.len() ==> http@[i].id == before.http.entries[i].backend.id
                && http@[i].url == before.http.entries[i].backend.url && http@[i].scheme
                == before.http.entries[i].backend.scheme && http@[i].max_connections
                == before.http.entries[i].backend.max_connections && http@[i].active_connections
                == before.http.entries[i].active
            &&& 0 <= i < ws@.len() ==> ws@[i].id == before.ws.entries[i].backend.id && ws@[i].url
                == before.ws.entries[i].backend.url && ws@[i].scheme
                == before.ws.entries[i].backend.scheme && ws@[i].max_connections
                == before.ws.entries[i].backend.max_connections && ws@[i].active_connections
                == before.ws.entries[i].active
        },
        path != "/api/health"@ && path != "/api/backends"@ && path != "/api/balancer"@ ==> {
            &&& r.status == 404
            &&& r.payload matches ApiPayload::Error(text)
            &&& text@ == "unknown api endpoint"@
        },
{
    law_reading_changes_nothing(before, path, body, r, after);
    law_methods_and_paths_are_routed("GET"@, path);
    if path == "/api/backends"@ {
        if let ApiPayload::Backends { mode, http, ws } = r.payload {
            law_listing_reports_each_backend(http@, before.http, i);
            law_listing_reports_each_backend(ws@, before.ws, i);
        }
    }
}

/// The mode is changed to the one that is named, which is then given by its own name; a body that
/// cannot be read, or a name that is none, is refused with the reason, and nothing changes.
pub proof fn law_mode_is_set_by_its_name(
    before: StateView,
    body: ApiBody,
    r: ApiResponse,
    after: StateView,
)
    requires
        answers_api(before, "PUT"@, "/api/balancer"@, body, r, after),
        body is SetBalancer,
    ensures
        after.http == before.http && after.ws == before.ws,
        body->SetBalancer_0 matches Err(message) ==> {
            &&& r.status == 400
            &&& r.payload matches ApiPayload::Error(text)
            &&& text@ == "invalid json: "@ + message@
            &&& after.mode == before.mode
        },
        body->SetBalancer_0 matches Ok(request) ==> {
            let name = ascii_lower(trimmed(request.mode@));
            let least = name == "leastconn"@ || name == "least_conn"@ || name == "least"@;
            let queue = name == "queue"@ || name == "queued"@;
            &&& least ==> r.status == 200 && after.mode == LoadBalancingMode::LeastConn && (
            r.payload matches ApiPayload::Balancer { mode } && mode@ == "leastconn"@)
            &&& queue ==> r.status == 200 && after.mode == LoadBalancingMode::Queue && (
            r.payload matches ApiPayload::Balancer { mode } && mode@ == "queue"@)
            &&& !least && !queue ==> r.status == 400 && after.mode == before.mode && (
            r.payload matches ApiPayload::Error(text) && text@ == "unsupported load balancer: "@
                + name)
        },
{
    lemma_balancer_routes();
    if body->SetBalancer_0 is Ok {
        law_modes_have_five_names(body->SetBalancer_0->Ok_0.mode@);
    }
}

/// The endpoints are these six: each has one method and one path, or one start of a path, and any
/// other request has none.
pub proof fn law_methods_and_paths_are_routed(method: Seq<char>, path: Seq<char>)
    ensures
        route_of(method, path) == ApiRoute::Health <==> method == "GET"@ && path == "/api/health"@,
        route_of(method, path) == ApiRoute::ListBackends <==> method == "GET"@ && path
            == "/api/backends"@,
        route_of(method, path) == ApiRoute::AddBackend <==> method == "POST"@ && path
            == "/api/backends"@,
        route_of(method, path) == ApiRoute::RemoveBackend <==> method == "DELETE"@
            && "/api/backends/"@.is_prefix_of(path),
        route_of(method, path) == ApiRoute::GetBalancer <==> method == "GET"@ && path
            == "/api/balancer"@,
        route_of(method, path) == ApiRoute::SetBalancer <==> method == "PUT"@ && path
            == "/api/balancer"@,
{
    reveal_strlit("GET");
    reveal_strlit("POST");
    reveal_strlit("DELETE");
    reveal_strlit("PUT");
    reveal_strlit("/api/health");
    reveal_strlit("/api/backends");
    reveal_strlit("/api/balancer");
    assert("GET"@.len() == 3);
    assert("POST"@.len() == 4);
    assert("DELETE"@.len() == 6);
    assert("PUT"@.len() == 3);
    assert("GET"@[0] == 'G');
    assert("PUT"@[0] == 'P');
    assert("/api/health"@.len() == 11);
    assert("/api/backends"@.len() == 13);
    assert("/api/backends"@[7] == 'c');
    assert("/api/balancer"@[7] == 'l');
}

/// Any request that is not to one of the six endpoints is answered with 404, and changes nothing.
pub proof fn law_other_requests_are_not_found(
    before: StateView,
    method: Seq<char>,
    path: Seq<char>,
    body: ApiBody,
    r: ApiResponse,
    after: StateView,
)
    requires
        answers_api(before, method, path, body, r, after),
        !(method == "GET"@ && (path == "/api/health"@ || path == "/api/backends"@ || path
            == "/api/balancer"@)),
        !(method == "POST"@ && path == "/api/backends"@),
        !(method == "PUT"@ && path == "/api/balancer"@),
        !(method == "DELETE"@ && "/api/backends/"@.is_prefix_of(path)),
    ensures
        r.status == 404,
        r.payload matches ApiPayload::Error(text) && text@ == "unknown api endpoint"@,
        after == before,
{
    law_methods_and_paths_are_routed(method, path);
}

/// The listing of the API gives as the active connections of a backend the number of its leases
/// that were taken and not given back, over any history of a new proxy.
pub proof fn law_listing_of_the_api_reports_the_leases(
    states: Seq<StateView>,
    events: Seq<StateEvent>,
    body: ApiBody,
    r: ApiResponse,
    after: StateView,
    i: int,
)
    requires
        state_runs(states, events),
        ids_do_not_collide(events),
        all_leases_are_kept(events),
        answers_api(states.last(), "GET"@, "/api/backends"@, body, r, after),
    ensures
        r.payload matches ApiPayload::Backends { mode, http, ws } && (0 <= i < http@.len()
            ==> http@[i].active_connections == open_leases(events, true, http@[i].id@)) && (0 <= i
            < ws@.len() ==> ws@[i].active_connections == open_leases(events, false, ws@[i].id@)),
{
    lemma_backend_routes(seq![]);
    if let ApiPayload::Backends { mode, http, ws } = r.payload {
        law_listing_reports_the_leases(states, events, http@, ws@);
    }
}

} // verus!
