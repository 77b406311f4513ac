//! The state of the proxy: one pool of backends for requests, one for WebSocket connections, and
//! the load-balancing mode.

use crate::backend::{scheme_named, view_of, Backend, BackendScheme, BackendView};
use crate::balancer::LoadBalancingMode;
use crate::pool::{Acquisition, BackendLease, BackendPool, BackendState, PoolView};
use crate::urls::{is_web_scheme, BackendUrl};
use vstd::prelude::*;
use vstd::string::*;

verus! {

/// Whether `c` is a lower-case hexadecimal digit.
pub open spec fn is_hex_digit(c: char) -> bool {
    '0' <= c <= '9' || 'a' <= c <= 'f'
}

/// Whether `id` writes a random UUID (version 4) in lower case and with hyphens.
pub open spec fn is_random_uuid(id: Seq<char>) -> bool {
    &&& id.len() == 36
    &&& forall|i: int|
        0 <= i < 36 ==> if i == 8 || i == 13 || i == 18 || i == 23 {
            #[trigger] id[i] == '-'
        } else {
            is_hex_digit(id[i])
        }
    &&& id[14] == '4'
    &&& id[19] == '8' || id[19] == '9' || id[19] == 'a' || id[19] == 'b'
}

/// `uuid::Uuid::new_v4`, written out by its `Display`: a random identifier. The contract claims
/// the form that every such identifier has, and nothing of which one it is.
#[verifier::external_body]
fn new_backend_id() -> (id: String)
    ensures
        is_random_uuid(id@),
{
    uuid::Uuid::new_v4().to_string()
}

/// What the proxy holds.
#[verifier::ext_equal]
pub struct StateView {
    pub http: PoolView,
    pub ws: PoolView,
    pub mode: LoadBalancingMode,
}

/// Whether a backend stands in the pool for its protocol and can take connections at all.
pub open spec fn well_placed(backend: Backend, http: bool) -> bool {
    &&& scheme_named(backend.url@.scheme) == Some(backend.scheme)
    &&& backend.scheme.spec_is_http() == http
    &&& backend.max_connections != Some(0usize)
}

impl StateView {
    /// Both pools are well-formed; the one holds the HTTP backends and the other the WebSocket
    /// backends, and each backend has the protocol of its URL and takes connections.
    pub open spec fn wf(self) -> bool {
        &&& self.http.wf()
        &&& self.ws.wf()
        &&& forall|i: int|
            0 <= i < self.http.entries.len() ==> well_placed(
                (#[trigger] self.http.entries[i]).backend,
                true,
            )
        &&& forall|i: int|
            0 <= i < self.ws.entries.len() ==> well_placed(
                (#[trigger] self.ws.entries[i]).backend,
                false,
            )
    }

    /// The state after `backend` was added to the pool for its protocol.
    pub open spec fn added(self, backend: Backend) -> StateView {
        if backend.scheme.spec_is_http() {
            StateView { http: self.http.added(backend), ..self }
        } else {
            StateView { ws: self.ws.added(backend), ..self }
        }
    }

    /// Whether some backend has the given id.
    pub open spec fn knows(self, id: Seq<char>) -> bool {
        self.http.knows(id) || self.ws.knows(id)
    }

    /// Whether the backend with the given id, of the pool for requests if it is there and else of
    /// the other one, is the one that `view` reports on, and its removal leaves `after`.
    pub open spec fn removes(self, id: Seq<char>, view: BackendView, after: StateView) -> bool {
        if self.http.knows(id) {
            self.http.removes(id, view, after.http) && after == StateView {
                http: after.http,
                ..self
            }
        } else {
            self.ws.removes(id, view, after.ws) && after == StateView { ws: after.ws, ..self }
        }
    }
}

/// Why a backend is refused, if it is.
pub open spec fn refusal(url: BackendUrl, max_connections: Option<usize>) -> Option<Seq<char>> {
    if scheme_named(url@.scheme) is None {
        Some("unsupported backend scheme: "@ + url@.scheme)
    } else if max_connections == Some(0usize) {
        Some("max_connections must be > 0"@)
    } else {
        None
    }
}

/// Whether `views` reports on the backends of a pool, in their order.
pub open spec fn lists(views: Seq<BackendView>, pool: PoolView) -> bool {
    &&& views.len() == pool.entries.len()
    &&& forall|i: int|
        0 <= i < views.len() ==> #[trigger] views[i] == view_of(
            pool.entries[i].backend,
            pool.entries[i].active,
        )
}

/// The protocol of a backend that may be added, or the reason why it is refused.
pub fn check_backend(url: &BackendUrl, max_connections: Option<usize>) -> (r: Result<
    BackendScheme,
    String,
>)
    ensures
        match r {
            Ok(scheme) => refusal(*url, max_connections) is None && scheme_named(url@.scheme)
                == Some(scheme),
            Err(message) => refusal(*url, max_connections) == Some(message@),
        },
{
    match BackendScheme::from_url(url) {
        None => Err("unsupported backend scheme: ".to_owned().concat(url.scheme())),
        Some(scheme) => {
            if let Some(0) = max_connections {
                return Err("max_connections must be > 0".to_owned());
            }
            Ok(scheme)
        },
    }
}

/// The backends of the proxy and its load-balancing mode.
#[derive(Debug)]
pub struct ProxyState {
    http_pool: BackendPool,
    ws_pool: BackendPool,
    mode: LoadBalancingMode,
}

impl View for ProxyState {
    type V = StateView;

    closed spec fn view(&self) -> StateView {
        StateView { http: self.http_pool@, ws: self.ws_pool@, mode: self.mode }
    }
}

impl ProxyState {
    /// A proxy without backends.
    pub fn new(mode: LoadBalancingMode) -> (state: Self)
        ensures
            state@.http.entries == Seq::<BackendState>::empty(),
            state@.http.cursor == 0,
            state@.ws.entries == Seq::<BackendState>::empty(),
            state@.ws.cursor == 0,
            state@.mode == mode,
            state@.wf(),
    {
        ProxyState { http_pool: BackendPool::new(), ws_pool: BackendPool::new(), mode }
    }

    /// The load-balancing mode.
    pub fn mode(&self) -> (mode: LoadBalancingMode)
        ensures
            mode == self@.mode,
    {
        self.mode
    }

    /// Changes the load-balancing mode.
    pub fn set_mode(&mut self, mode: LoadBalancingMode)
        requires
            old(self)@.wf(),
        ensures
            final(self)@ == (StateView { mode, ..old(self)@ }),
            final(self)@.wf(),
    {
        self.mode = mode;
    }

    /// Adds a backend under a given id to the pool for its protocol, or says why it is refused.
    pub fn add_backend_with_id(
        &mut self,
        id: String,
        url: BackendUrl,
        max_connections: Option<usize>,
    ) -> (r: Result<BackendView, String>)
        requires
            old(self)@.wf(),
        ensures
            match r {
                Ok(view) => {
                    &&& refusal(url, max_connections) is None
                    &&& scheme_named(url@.scheme) is Some
                    &&& ({
                        let scheme = scheme_named(url@.scheme)->0;
                        let backend = Backend { id, url, scheme, max_connections };
                        &&& view == view_of(backend, 0)
                        &&& final(self)@ == old(self)@.added(backend)
                    })
                },
                Err(message) => {
                    &&& refusal(url, max_connections) == Some(message@)
                    &&& final(self)@ == old(self)@
                },
            },
            final(self)@.wf(),
    {
        match check_backend(&url, max_connections) {
            Ok(scheme) => Ok(self.insert_backend(Backend { id, url, scheme, max_connections })),
            Err(message) => Err(message),
        }
    }

    /// Adds a backend to the pool for its protocol.
    fn insert_backend(&mut self, backend: Backend) -> (view: BackendView)
        requires
            old(self)@.wf(),
            well_placed(backend, backend.scheme.spec_is_http()),
        ensures
            view == view_of(backend, 0),
            final(self)@ == old(self)@.added(backend),
            final(self)@.wf(),
    {
        if backend.scheme.is_http() {
            self.http_pool.add_backend(backend)
        } else {
            self.ws_pool.add_backend(backend)
        }
    }

    /// Adds a backend under a new random id to the pool for its protocol, or says why it is
    /// refused.
    pub fn add_backend(&mut self, url: BackendUrl, max_connections: Option<usize>) -> (r: Result<
        BackendView,
        String,
    >)
        requires
            old(self)@.wf(),
        ensures
            match r {
                Ok(view) => {
                    &&& refusal(url, max_connections) is None
                    &&& scheme_named(url@.scheme) is Some
                    &&& is_random_uuid(view.id@)
                    &&& ({
                        let scheme = scheme_named(url@.scheme)->0;
                        let backend = Backend { id: view.id, url, scheme, max_connections };
                        &&& view == view_of(backend, 0)
                        &&& final(self)@ == old(self)@.added(backend)
                    })
                },
                Err(message) => {
                    &&& refusal(url, max_connections) == Some(message@)
                    &&& final(self)@ == old(self)@
                },
            },
            final(self)@.wf(),
    {
        match check_backend(&url, max_connections) {
            Ok(scheme) => {
                let id = new_backend_id();
                Ok(self.insert_backend(Backend { id, url, scheme, max_connections }))
            },
            Err(message) => Err(message),
        }
    }

    /// Removes the backend with the given id and reports on it, if there is one.
    pub fn remove_backend(&mut self, id: &str) -> (view: Option<BackendView>)
        requires
            old(self)@.wf(),
        ensures
            match view {
                Some(view) => old(self)@.knows(id@) && old(self)@.removes(
                    id@,
                    view,
                    final(self)@,
                ),
                None => !old(self)@.knows(id@) && final(self)@ == old(self)@,
            },
            final(self)@.wf(),
    {
        let ghost before = self@;
        if let Some(view) = self.http_pool.remove_backend(id) {
            proof {
                let i = choose|i: int|
                    {
                        &&& #[trigger] before.http.finds(id@, i)
                        &&& self@.http == before.http.removed(i)
                        &&& view == view_of(
                            before.http.entries[i].backend,
                            before.http.entries[i].active,
                        )
                    };
                assert(before.http.has_id(id@, i));
                lemma_removal_keeps_placement(before.http, i, true);
            }
            return Some(view);
        }
        let removed = self.ws_pool.remove_backend(id);
        proof {
            if removed is Some {
                let view = removed->0;
                let i = choose|i: int|
                    {
                        &&& #[trigger] before.ws.finds(id@, i)
                        &&& self@.ws == before.ws.removed(i)
                        &&& view == view_of(
                            before.ws.entries[i].backend,
                            before.ws.entries[i].active,
                        )
                    };
                assert(before.ws.has_id(id@, i));
                lemma_removal_keeps_placement(before.ws, i, false);
            }
        }
        removed
    }

    /// Reports on the backends for requests and on those for WebSocket connections.
    pub fn list_backends(&self) -> (views: (Vec<BackendView>, Vec<BackendView>))
        ensures
            lists(views.0@, self@.http),
            lists(views.1@, self@.ws),
    {
        (self.http_pool.list_backends(), self.ws_pool.list_backends())
    }

    /// Asks for a backend for a request.
    pub fn acquire_http(&mut self) -> (outcome: Acquisition)
        requires
            old(self)@.wf(),
        ensures
            old(self)@.http.answers(old(self)@.mode, outcome, final(self)@.http),
            final(self)@ == (StateView { http: final(self)@.http, ..old(self)@ }),
            final(self)@.wf(),
    {
        let mode = self.mode();
        let outcome = self.http_pool.acquire(mode);
        proof {
            crate::pool_laws::law_limit_is_kept(old(self)@.http, mode, outcome, self@.http);
        }
        outcome
    }

    /// Asks for a backend for a WebSocket connection.
    pub fn acquire_ws(&mut self) -> (outcome: Acquisition)
        requires
            old(self)@.wf(),
        ensures
            old(self)@.ws.answers(old(self)@.mode, outcome, final(self)@.ws),
            final(self)@ == (StateView { ws: final(self)@.ws, ..old(self)@ }),
            final(self)@.wf(),
    {
        let mode = self.mode();
        let outcome = self.ws_pool.acquire(mode);
        proof {
            crate::pool_laws::law_limit_is_kept(old(self)@.ws, mode, outcome, self@.ws);
        }
        outcome
    }

    /// Asks again for a backend for a request that waits. The request goes on waiting even where
    /// the mode was changed meanwhile.
    pub fn retry_http(&mut self) -> (outcome: Acquisition)
        requires
            old(self)@.wf(),
        ensures
            old(self)@.http.answers(LoadBalancingMode::Queue, outcome, final(self)@.http),
            final(self)@ == (StateView { http: final(self)@.http, ..old(self)@ }),
            final(self)@.wf(),
    {
        let mode = LoadBalancingMode::Queue;
        let outcome = self.http_pool.acquire_queue();
        proof {
            crate::pool_laws::law_limit_is_kept(old(self)@.http, mode, outcome, self@.http);
        }
        outcome
    }

    /// Asks again for a backend for a WebSocket connection that waits. The connection goes on
    /// waiting even where the mode was changed meanwhile.
    pub fn retry_ws(&mut self) -> (outcome: Acquisition)
        requires
            old(self)@.wf(),
        ensures
            old(self)@.ws.answers(LoadBalancingMode::Queue, outcome, final(self)@.ws),
            final(self)@ == (StateView { ws: final(self)@.ws, ..old(self)@ }),
            final(self)@.wf(),
    {
        let mode = LoadBalancingMode::Queue;
        let outcome = self.ws_pool.acquire_queue();
        proof {
            crate::pool_laws::law_limit_is_kept(old(self)@.ws, mode, outcome, self@.ws);
        }
        outcome
    }

    /// Gives a connection of a backend for requests back.
    pub fn release_http(&mut self, id: &str)
        requires
            old(self)@.wf(),
        ensures
            old(self)@.http.releases(id@, final(self)@.http),
            final(self)@ == (StateView { http: final(self)@.http, ..old(self)@ }),
            final(self)@.wf(),
    {
        self.http_pool.release(id);
    }

    /// Gives a connection of a backend for WebSocket connections back.
    pub fn release_ws(&mut self, id: &str)
        requires
            old(self)@.wf(),
        ensures
            old(self)@.ws.releases(id@, final(self)@.ws),
            final(self)@ == (StateView { ws: final(self)@.ws, ..old(self)@ }),
            final(self)@.wf(),
    {
        self.ws_pool.release(id);
    }
}

/// The reports of a listing are separated by protocol: those on HTTP backends come first.
pub proof fn law_listing_separates_protocols(
    state: StateView,
    http: Seq<BackendView>,
    ws: Seq<BackendView>,
)
    requires
        state.wf(),
        lists(http, state.http),
        lists(ws, state.ws),
    ensures
        forall|i: int| 0 <= i < http.len() ==> (#[trigger] http[i]).scheme.spec_is_http(),
        forall|i: int| 0 <= i < ws.len() ==> !(#[trigger] ws[i]).scheme.spec_is_http(),
{
    assert forall|i: int| 0 <= i < http.len() implies (
    #[trigger] http[i]).scheme.spec_is_http() by {
        assert(well_placed(state.http.entries[i].backend, true));
    }
    assert forall|i: int| 0 <= i < ws.len() implies !(#[trigger] ws[i]).scheme.spec_is_http() by {
        assert(well_placed(state.ws.entries[i].backend, false));
    }
}

/// A backend that is removed right after it was added leaves the state as it was, where no other
/// backend has its id, and is reported without connections.
pub proof fn law_remove_undoes_add(state: StateView, backend: Backend)
    requires
        state.wf(),
        !state.knows(backend.id@),
    ensures
        state.added(backend).knows(backend.id@),
        state.added(backend).removes(backend.id@, view_of(backend, 0), state),
{
    let added = state.added(backend);
    if backend.scheme.spec_is_http() {
        crate::pool_laws::law_remove_undoes_add(state.http, backend);
        assert(added.http.has_id(backend.id@, state.http.entries.len() as int));
        assert(added.http.finds(backend.id@, state.http.entries.len() as int));
    } else {
        crate::pool_laws::law_remove_undoes_add(state.ws, backend);
        assert(added.ws.has_id(backend.id@, state.ws.entries.len() as int));
        assert(added.ws.finds(backend.id@, state.ws.entries.len() as int));
    }
}

/// A request is given an HTTP backend and a WebSocket connection a WebSocket backend, and the URL
/// of either is one that can be forwarded to.
pub proof fn law_leased_backend_speaks_the_protocol(
    state: StateView,
    mode: LoadBalancingMode,
    lease: BackendLease,
    after: PoolView,
)
    requires
        state.wf(),
    ensures
        state.http.answers(mode, Acquisition::Leased(lease), after) ==> {
            &&& lease@.scheme.spec_is_http()
            &&& is_web_scheme(lease@.url@.scheme)
        },
        state.ws.answers(mode, Acquisition::Leased(lease), after) ==> {
            &&& !lease@.scheme.spec_is_http()
            &&& is_web_scheme(lease@.url@.scheme)
        },
{
    if state.http.answers(mode, Acquisition::Leased(lease), after) {
        let i = choose|i: int|
            #[trigger] state.http.picks(mode, i) && lease@ == state.http.entries[i].backend;
        assert(state.http.available(i));
        assert(well_placed(state.http.entries[i].backend, true));
    }
    if state.ws.answers(mode, Acquisition::Leased(lease), after) {
        let i = choose|i: int|
            #[trigger] state.ws.picks(mode, i) && lease@ == state.ws.entries[i].backend;
        assert(state.ws.available(i));
        assert(well_placed(state.ws.entries[i].backend, false));
    }
}

/// A lease that is given back always leaves an available backend in its pool, for a request that
/// waits there.
pub proof fn law_release_ends_a_wait(state: StateView, id: Seq<char>, i: int)
    requires
        state.wf(),
    ensures
        state.http.finds(id, i) ==> state.http.released(i).any_available(),
        state.ws.finds(id, i) ==> state.ws.released(i).any_available(),
{
    if state.http.finds(id, i) {
        assert(well_placed(state.http.entries[i].backend, true));
        crate::pool_laws::law_release_frees_a_slot(state.http, id, i);
    }
    if state.ws.finds(id, i) {
        assert(well_placed(state.ws.entries[i].backend, false));
        crate::pool_laws::law_release_frees_a_slot(state.ws, id, i);
    }
}

/// The backends that stay when one is removed are as well placed as before.
pub(crate) proof fn lemma_removal_keeps_placement(pool: PoolView, i: int, http: bool)
    requires
        0 <= i < pool.entries.len(),
        forall|j: int|
            0 <= j < pool.entries.len() ==> well_placed((#[trigger] pool.entries[j]).backend, http),
    ensures
        forall|j: int|
            0 <= j < pool.removed(i).entries.len() ==> well_placed(
                (#[trigger] pool.removed(i).entries[j]).backend,
                http,
            ),
{
    assert forall|j: int| 0 <= j < pool.removed(i).entries.len() implies well_placed(
        (#[trigger] pool.removed(i).entries[j]).backend,
        http,
    ) by {
        let k = if j < i {
            j
        } else {
            j + 1
        };
        assert(well_placed(pool.entries[k].backend, http));
    }
}

} // verus!
