//! A pool of backends that are leased to requests.

use crate::backend::{view_of, Backend, BackendView};
use crate::balancer::LoadBalancingMode;
use crate::text::same_text;
use vstd::prelude::*;

verus! {

/// A backend of a pool, with the number of its active connections.
#[derive(Debug)]
pub struct BackendState {
    pub backend: Backend,
    pub active: usize,
}

impl BackendState {
    /// Whether the backend can take one more connection.
    pub open spec fn available(self) -> bool {
        match self.backend.max_connections {
            Some(max) => self.active < max,
            None => true,
        }
    }

    /// Whether the backend has no more connections than it may have.
    pub open spec fn within_limit(self) -> bool {
        match self.backend.max_connections {
            Some(max) => self.active <= max,
            None => true,
        }
    }

    /// The backend with one more connection.
    pub open spec fn leased(self) -> BackendState {
        BackendState {
            active: if self.active < usize::MAX {
                (self.active + 1) as usize
            } else {
                usize::MAX
            },
            ..self
        }
    }

    /// The backend with one connection less.
    pub open spec fn released(self) -> BackendState {
        BackendState {
            active: if self.active > 0 {
                (self.active - 1) as usize
            } else {
                0
            },
            ..self
        }
    }

    /// The report on the backend.
    fn snapshot(&self) -> (view: BackendView)
        ensures
            view == view_of(self.backend, self.active),
    {
        BackendView {
            id: self.backend.id.clone(),
            url: self.backend.url.clone(),
            scheme: self.backend.scheme,
            max_connections: self.backend.max_connections,
            active_connections: self.active,
        }
    }

    fn is_available(&self) -> (available: bool)
        ensures
            available == self.available(),
    {
        match self.backend.max_connections {
            Some(max) => self.active < max,
            None => true,
        }
    }
}

/// What a pool holds: its backends in the order in which they were added, and the place at which
/// the next round-robin turn begins.
#[verifier::ext_equal]
pub struct PoolView {
    pub entries: Seq<BackendState>,
    pub cursor: int,
}

impl PoolView {
    /// The round-robin turn begins at a backend of the pool, and no backend has more connections
    /// than it may have.
    pub open spec fn wf(self) -> bool {
        &&& 0 <= self.cursor
        &&& self.cursor < self.entries.len() || self.cursor == 0
        &&& forall|i: int| 0 <= i < self.entries.len() ==> (#[trigger] self.entries[i]).within_limit()
    }

    /// Whether there is a backend at `i`, and it can take one more connection.
    pub open spec fn available(self, i: int) -> bool {
        0 <= i < self.entries.len() && self.entries[i].available()
    }

    /// Whether some backend can take one more connection.
    pub open spec fn any_available(self) -> bool {
        exists|i: int| #[trigger] self.available(i)
    }

    /// How many backends come before the one at `i` in the round-robin turn.
    pub open spec fn turn(self, i: int) -> int {
        if i >= self.cursor {
            i - self.cursor
        } else {
            i + self.entries.len() - self.cursor
        }
    }

    /// Whether the backend at `i` is the next one to be leased. Among the available backends that
    /// is, in `LeastConn` mode, the first of those with the fewest connections; in `Queue` mode,
    /// the one that comes first in the round-robin turn.
    pub open spec fn picks(self, mode: LoadBalancingMode, i: int) -> bool {
        &&& self.available(i)
        &&& match mode {
            LoadBalancingMode::LeastConn => forall|j: int| #[trigger]
                self.available(j) ==> {
                    &&& self.entries[i].active <= self.entries[j].active
                    &&& j < i ==> self.entries[i].active < self.entries[j].active
                },
            LoadBalancingMode::Queue => forall|j: int| #[trigger]
                self.available(j) ==> self.turn(i) <= self.turn(j),
        }
    }

    /// The pool after the backend at `i` was leased.
    pub open spec fn leased(self, mode: LoadBalancingMode, i: int) -> PoolView {
        PoolView {
            entries: self.entries.update(i, self.entries[i].leased()),
            cursor: match mode {
                LoadBalancingMode::LeastConn => self.cursor,
                LoadBalancingMode::Queue => if i + 1 < self.entries.len() {
                    i + 1
                } else {
                    0
                },
            },
        }
    }

    /// The pool after `backend` was added.
    pub open spec fn added(self, backend: Backend) -> PoolView {
        PoolView { entries: self.entries.push(BackendState { backend, active: 0 }), ..self }
    }

    /// Whether the backend at `i` has the given id.
    pub open spec fn has_id(self, id: Seq<char>, i: int) -> bool {
        0 <= i < self.entries.len() && self.entries[i].backend.id@ == id
    }

    /// Whether some backend has the given id.
    pub open spec fn knows(self, id: Seq<char>) -> bool {
        exists|i: int| #[trigger] self.has_id(id, i)
    }

    /// Whether the backend at `i` is the first one with the given id.
    pub open spec fn finds(self, id: Seq<char>, i: int) -> bool {
        &&& self.has_id(id, i)
        &&& forall|j: int| #[trigger] self.has_id(id, j) ==> i <= j
    }

    /// The pool after the backend at `i` was removed. Whoever is next in the round-robin turn stays
    /// so; where that is the removed backend, the one behind it is next.
    pub open spec fn removed(self, i: int) -> PoolView {
        let next = if i < self.cursor {
            self.cursor - 1
        } else {
            self.cursor
        };
        PoolView {
            entries: self.entries.remove(i),
            cursor: if next < self.entries.len() - 1 {
                next
            } else {
                0
            },
        }
    }

    /// The pool after a connection of the backend at `i` was given back.
    pub open spec fn released(self, i: int) -> PoolView {
        PoolView { entries: self.entries.update(i, self.entries[i].released()), ..self }
    }

    /// Whether the first backend with the given id is the one that `view` reports on, and its
    /// removal leaves `after`.
    pub open spec fn removes(self, id: Seq<char>, view: BackendView, after: PoolView) -> bool {
        exists|i: int|
            {
                &&& #[trigger] self.finds(id, i)
                &&& after == self.removed(i)
                &&& view == view_of(self.entries[i].backend, self.entries[i].active)
            }
    }

    /// Whether a connection of the first backend with the given id, if there is one, is given back
    /// in `after`.
    pub open spec fn releases(self, id: Seq<char>, after: PoolView) -> bool {
        if self.knows(id) {
            exists|i: int| #[trigger] self.finds(id, i) && after == self.released(i)
        } else {
            after == self
        }
    }
}

impl PoolView {
    /// Whether the pool leases `backend` next, and holds `after` then.
    pub open spec fn hands_out(
        self,
        mode: LoadBalancingMode,
        backend: Backend,
        after: PoolView,
    ) -> bool {
        exists|i: int|
            {
                &&& #[trigger] self.picks(mode, i)
                &&& backend == self.entries[i].backend
                &&& after == self.leased(mode, i)
            }
    }

    /// Whether the pool answers a request with `outcome`, and holds `after` then.
    pub open spec fn answers(
        self,
        mode: LoadBalancingMode,
        outcome: Acquisition,
        after: PoolView,
    ) -> bool {
        match outcome {
            Acquisition::Leased(lease) => self.hands_out(mode, lease@, after),
            Acquisition::Unavailable => {
                &&& after == self
                &&& match mode {
                    LoadBalancingMode::LeastConn => !self.any_available(),
                    LoadBalancingMode::Queue => self.entries.len() == 0,
                }
            },
            Acquisition::Wait => {
                &&& after == self
                &&& mode == LoadBalancingMode::Queue
                &&& self.entries.len() > 0
                &&& !self.any_available()
            },
        }
    }

    /// What is picked in `LeastConn` mode does not depend on the round-robin turn.
    proof fn least_conn_ignores_cursor(self)
        ensures
            ({
                let pool = PoolView { entries: self.entries, cursor: 0 };
                &&& pool.any_available() == self.any_available()
                &&& forall|i: int|
                    pool.picks(LoadBalancingMode::LeastConn, i) == #[trigger] self.picks(
                        LoadBalancingMode::LeastConn,
                        i,
                    )
            }),
    {
        let pool = PoolView { entries: self.entries, cursor: 0 };
        assert forall|i: int| pool.available(i) == #[trigger] self.available(i) by {}
        assert forall|i: int| self.available(i) == #[trigger] pool.available(i) by {}
    }
}

/// A connection to a backend that a request holds.
#[derive(Debug)]
pub struct BackendLease {
    backend: Backend,
}

impl View for BackendLease {
    type V = Backend;

    closed spec fn view(&self) -> Backend {
        self.backend
    }
}

impl BackendLease {
    /// The backend that is leased.
    pub fn backend(&self) -> (backend: &Backend)
        ensures
            *backend == self@,
    {
        &self.backend
    }

    /// The id under which the lease is given back.
    pub fn backend_id(&self) -> (id: &str)
        ensures
            id@ == self@.id@,
    {
        self.backend.id.as_str()
    }
}

/// The outcome of asking a pool for a backend.
#[derive(Debug)]
pub enum Acquisition {
    /// A backend was leased.
    Leased(BackendLease),
    /// The request is to be refused.
    Unavailable,
    /// The request is to ask again once a backend was added or removed, or a lease given back.
    Wait,
}

/// Backends, of which each takes a limited number of connections at a time.
#[derive(Debug)]
pub struct BackendPool {
    backends: Vec<BackendState>,
    rr_cursor: usize,
}

impl View for BackendPool {
    type V = PoolView;

    closed spec fn view(&self) -> PoolView {
        PoolView { entries: self.backends@, cursor: self.rr_cursor as int }
    }
}

/// The first available backend with the fewest connections.
fn select_least_conn(backends: &Vec<BackendState>) -> (selected: Option<usize>)
    ensures
        ({
            let pool = PoolView { entries: backends@, cursor: 0 };
            match selected {
                Some(i) => pool.picks(LoadBalancingMode::LeastConn, i as int),
                None => !pool.any_available(),
            }
        }),
{
    let ghost pool = PoolView { entries: backends@, cursor: 0 };
    let mut selected: Option<usize> = None;
    let mut idx: usize = 0;
    while idx < backends.len()
        invariant
            idx <= backends@.len(),
            pool.entries == backends@,
            match selected {
                Some(best) => {
                    &&& best < idx
                    &&& pool.available(best as int)
                    &&& forall|j: int|
                        j < idx && #[trigger] pool.available(j) ==> {
                            &&& pool.entries[best as int].active <= pool.entries[j].active
                            &&& j < best ==> pool.entries[best as int].active
                                < pool.entries[j].active
                        }
                },
                None => forall|j: int| j < idx ==> !#[trigger] pool.available(j),
            },
        decreases backends@.len() - idx,
    {
        if backends[idx].is_available() {
            assert(pool.available(idx as int));
            match selected {
                None => {
                    selected = Some(idx);
                },
                Some(best) => {
                    if backends[idx].active < backends[best].active {
                        selected = Some(idx);
                    }
                },
            }
        }
        idx = idx + 1;
    }
    selected
}

impl BackendPool {
    /// An empty pool.
    pub fn new() -> (pool: Self)
        ensures
            pool@.entries == Seq::<BackendState>::empty(),
            pool@.cursor == 0,
            pool@.wf(),
    {
        BackendPool { backends: Vec::new(), rr_cursor: 0 }
    }

    /// Adds a backend, without any connections.
    pub fn add_backend(&mut self, backend: Backend) -> (view: BackendView)
        requires
            old(self)@.wf(),
        ensures
            final(self)@ == old(self)@.added(backend),
            final(self)@.wf(),
            view == view_of(backend, 0),
    {
        let state = BackendState { backend, active: 0 };
        let view = state.snapshot();
        self.backends.push(state);
        view
    }

    /// The place of the first backend with the given id.
    fn position(&self, id: &str) -> (pos: Option<usize>)
        ensures
            match pos {
                Some(i) => self@.finds(id@, i as int),
                None => !self@.knows(id@),
            },
    {
        let mut idx: usize = 0;
        while idx < self.backends.len()
            invariant
                idx <= self.backends@.len(),
                forall|j: int| j < idx ==> !#[trigger] self@.has_id(id@, j),
            decreases self.backends@.len() - idx,
        {
            if same_text(self.backends[idx].backend.id.as_str(), id) {
                assert(self@.has_id(id@, idx as int));
                return Some(idx);
            }
            idx = idx + 1;
        }
        None
    }

    /// Removes the first backend with the given id and reports on it, if there is one.
    pub fn remove_backend(&mut self, id: &str) -> (view: Option<BackendView>)
        requires
            old(self)@.wf(),
        ensures
            match view {
                Some(view) => old(self)@.removes(id@, view, final(self)@),
                None => !old(self)@.knows(id@) && final(self)@ == old(self)@,
            },
            final(self)@.wf(),
    {
        match self.position(id) {
            Some(pos) => {
                assert(self@.has_id(id@, pos as int));
                let removed = self.backends.remove(pos);
                if pos < self.rr_cursor {
                    self.rr_cursor = self.rr_cursor - 1;
                }
                if self.rr_cursor >= self.backends.len() {
                    self.rr_cursor = 0;
                }
                proof {
                    assert(old(self)@.finds(id@, pos as int));
                    assert(self@ =~= old(self)@.removed(pos as int));
                    assert forall|i: int| 0 <= i < self@.entries.len() implies (
                    #[trigger] self@.entries[i]).within_limit() by {
                        let k = if i < pos { i } else { i + 1 };
                        assert(old(self)@.entries[k].within_limit());
                    }
                }
                Some(removed.snapshot())
            },
            None => None,
        }
    }

    /// Reports on the backends, in the order in which they were added.
    pub fn list_backends(&self) -> (views: Vec<BackendView>)
        ensures
            views@.len() == self@.entries.len(),
            forall|i: int|
                0 <= i < views@.len() ==> #[trigger] views@[i] == view_of(
                    self@.entries[i].backend,
                    self@.entries[i].active,
                ),
    {
        let mut views: Vec<BackendView> = Vec::new();
        let mut idx: usize = 0;
        while idx < self.backends.len()
            invariant
                idx <= self.backends@.len(),
                views@.len() == idx,
                forall|i: int|
                    0 <= i < idx ==> #[trigger] views@[i] == view_of(
                        self.backends@[i].backend,
                        self.backends@[i].active,
                    ),
            decreases self.backends@.len() - idx,
        {
            views.push(self.backends[idx].snapshot());
            idx = idx + 1;
        }
        views
    }

    /// Gives a connection of the first backend with the given id back.
    pub fn release(&mut self, id: &str)
        requires
            old(self)@.wf(),
        ensures
            old(self)@.releases(id@, final(self)@),
            final(self)@.wf(),
    {
        match self.position(id) {
            Some(pos) => {
                assert(self@.has_id(id@, pos as int));
                let active = self.backends[pos].active.saturating_sub(1);
                self.backends[pos].active = active;
                proof {
                    assert(old(self)@.finds(id@, pos as int));
                    assert(old(self)@.entries[pos as int].within_limit());
                    assert(self@ =~= old(self)@.released(pos as int));
                    assert forall|i: int| 0 <= i < self@.entries.len() implies (
                    #[trigger] self@.entries[i]).within_limit() by {
                        assert(old(self)@.entries[i].within_limit());
                    }
                }
            },
            None => {},
        }
    }

    /// The available backend that comes first in the round-robin turn; the next turn begins behind
    /// it.
    fn select_queue(&mut self) -> (selected: Option<usize>)
        requires
            old(self)@.wf(),
        ensures
            final(self)@.entries == old(self)@.entries,
            match selected {
                Some(i) => {
                    &&& old(self)@.picks(LoadBalancingMode::Queue, i as int)
                    &&& final(self)@.cursor == old(self)@.leased(
                        LoadBalancingMode::Queue,
                        i as int,
                    ).cursor
                },
                None => !old(self)@.any_available() && final(self)@ == old(self)@,
            },
    {
        let total = self.backends.len();
        if total == 0 {
            return None;
        }
        let mut offset: usize = 0;
        while offset < total
            invariant
                offset <= total,
                self@ == old(self)@,
                self.backends@.len() == total,
                self.rr_cursor < total,
                forall|j: int|
                    self@.turn(j) < offset ==> !#[trigger] self@.available(j),
            decreases total - offset,
        {
            let idx: usize = if offset < total - self.rr_cursor {
                self.rr_cursor + offset
            } else {
                offset - (total - self.rr_cursor)
            };
            assert(self@.turn(idx as int) == offset);
            if self.backends[idx].is_available() {
                assert(self@.available(idx as int));
                self.rr_cursor = if idx + 1 < total {
                    idx + 1
                } else {
                    0
                };
                return Some(idx);
            }
            assert forall|j: int| self@.turn(j) < offset + 1 implies !#[trigger] self@.available(
                j,
            ) by {
                if self@.available(j) {
                    assert(j == idx);
                }
            }
            offset = offset + 1;
        }
        None
    }

    /// Counts one more connection of the backend at `idx` and hands it out.
    fn allocate_backend(&mut self, idx: usize) -> (lease: BackendLease)
        requires
            old(self)@.wf(),
            idx < old(self)@.entries.len(),
        ensures
            final(self)@ == old(self)@.leased(LoadBalancingMode::LeastConn, idx as int),
            old(self)@.available(idx as int) ==> final(self)@.wf(),
            lease@ == old(self)@.entries[idx as int].backend,
    {
        let active = self.backends[idx].active.saturating_add(1);
        self.backends[idx].active = active;
        proof {
            assert(self@ =~= old(self)@.leased(LoadBalancingMode::LeastConn, idx as int));
            if old(self)@.available(idx as int) {
                assert forall|i: int| 0 <= i < self@.entries.len() implies (
                #[trigger] self@.entries[i]).within_limit() by {
                    assert(old(self)@.entries[i].within_limit());
                }
            }
        }
        BackendLease { backend: self.backends[idx].backend.clone() }
    }

    /// Leases the next backend, if one is available.
    pub fn try_acquire(&mut self, mode: LoadBalancingMode) -> (lease: Option<BackendLease>)
        requires
            old(self)@.wf(),
        ensures
            match lease {
                Some(lease) => old(self)@.hands_out(mode, lease@, final(self)@),
                None => !old(self)@.any_available() && final(self)@ == old(self)@,
            },
            final(self)@.wf(),
    {
        let selected = match mode {
            LoadBalancingMode::LeastConn => {
                let selected = select_least_conn(&self.backends);
                proof {
                    self@.least_conn_ignores_cursor();
                }
                selected
            },
            LoadBalancingMode::Queue => self.select_queue(),
        };
        match selected {
            Some(idx) => {
                proof {
                    assert(old(self)@.picks(mode, idx as int));
                    assert(self@.available(idx as int));
                }
                let lease = self.allocate_backend(idx);
                assert(self@ =~= old(self)@.leased(mode, idx as int));
                Some(lease)
            },
            None => None,
        }
    }

    /// One step of waiting for a backend in `Queue` mode: the next backend is leased if one is
    /// available; a pool without any backends is unavailable; else the request waits.
    pub fn acquire_queue(&mut self) -> (outcome: Acquisition)
        requires
            old(self)@.wf(),
        ensures
            old(self)@.answers(LoadBalancingMode::Queue, outcome, final(self)@),
            final(self)@.wf(),
    {
        if self.backends.len() == 0 {
            return Acquisition::Unavailable;
        }
        match self.try_acquire(LoadBalancingMode::Queue) {
            Some(lease) => Acquisition::Leased(lease),
            None => Acquisition::Wait,
        }
    }

    /// Asks for a backend. In `LeastConn` mode the request is refused where no backend is
    /// available; in `Queue` mode it waits, unless the pool has no backends.
    pub fn acquire(&mut self, mode: LoadBalancingMode) -> (outcome: Acquisition)
        requires
            old(self)@.wf(),
        ensures
            old(self)@.answers(mode, outcome, final(self)@),
            final(self)@.wf(),
    {
        match mode {
            LoadBalancingMode::LeastConn => {
                match self.try_acquire(mode) {
                    Some(lease) => Acquisition::Leased(lease),
                    None => Acquisition::Unavailable,
                }
            },
            LoadBalancingMode::Queue => self.acquire_queue(),
        }
    }
}

} // verus!
