use hyper_proxy::pool::{Acquisition, BackendLease, BackendPool};
use hyper_proxy::{Backend, BackendScheme, BackendUrl, LoadBalancingMode};

fn backend(id: &str, max_connections: Option<usize>) -> Backend {
    Backend {
        id: id.to_string(),
        url: BackendUrl::parse("https://localhost:8443").unwrap(),
        scheme: BackendScheme::Https,
        max_connections,
    }
}

fn leased(outcome: Acquisition) -> BackendLease {
    match outcome {
        Acquisition::Leased(lease) => lease,
        other => panic!("no lease: {other:?}"),
    }
}

fn next_id(pool: &mut BackendPool, mode: LoadBalancingMode) -> String {
    let lease = leased(pool.acquire(mode));
    assert_eq!(lease.backend().id, lease.backend_id());
    lease.backend_id().to_string()
}

#[test]
fn empty_pool_is_unavailable_in_both_modes() {
    let mut pool = BackendPool::new();
    assert!(matches!(pool.acquire(LoadBalancingMode::Queue), Acquisition::Unavailable));
    assert!(matches!(pool.acquire(LoadBalancingMode::LeastConn), Acquisition::Unavailable));
    assert!(pool.try_acquire(LoadBalancingMode::Queue).is_none());
}

#[test]
fn busy_pool_refuses_or_waits() {
    let mut pool = BackendPool::new();
    pool.add_backend(backend("a", Some(1)));
    pool.add_backend(backend("b", Some(0)));
    assert_eq!(next_id(&mut pool, LoadBalancingMode::LeastConn), "a");
    assert!(matches!(pool.acquire(LoadBalancingMode::LeastConn), Acquisition::Unavailable));
    assert!(matches!(pool.acquire(LoadBalancingMode::Queue), Acquisition::Wait));
    assert!(matches!(pool.acquire_queue(), Acquisition::Wait));
    // nothing that another request asks for ends the wait
    assert!(matches!(pool.acquire(LoadBalancingMode::Queue), Acquisition::Wait));
    pool.release("a");
    assert_eq!(next_id(&mut pool, LoadBalancingMode::Queue), "a");
}

#[test]
fn adding_or_removing_a_backend_ends_a_wait() {
    let mut pool = BackendPool::new();
    pool.add_backend(backend("a", Some(1)));
    next_id(&mut pool, LoadBalancingMode::Queue);
    assert!(matches!(pool.acquire(LoadBalancingMode::Queue), Acquisition::Wait));
    pool.remove_backend("a");
    assert!(matches!(pool.acquire(LoadBalancingMode::Queue), Acquisition::Unavailable));
    pool.add_backend(backend("b", Some(1)));
    assert_eq!(next_id(&mut pool, LoadBalancingMode::Queue), "b");
}

#[test]
fn queue_is_round_robin() {
    let mut pool = BackendPool::new();
    for id in ["a", "b", "c"] {
        pool.add_backend(backend(id, None));
    }
    let order: Vec<String> =
        (0..7).map(|_| next_id(&mut pool, LoadBalancingMode::Queue)).collect();
    assert_eq!(order, vec!["a", "b", "c", "a", "b", "c", "a"]);
}

#[test]
fn queue_passes_over_busy_backends() {
    let mut pool = BackendPool::new();
    pool.add_backend(backend("a", None));
    pool.add_backend(backend("b", Some(1)));
    pool.add_backend(backend("c", None));
    let order: Vec<String> =
        (0..5).map(|_| next_id(&mut pool, LoadBalancingMode::Queue)).collect();
    assert_eq!(order, vec!["a", "b", "c", "a", "c"]);
    pool.release("b");
    assert_eq!(next_id(&mut pool, LoadBalancingMode::Queue), "a");
    assert_eq!(next_id(&mut pool, LoadBalancingMode::Queue), "b");
}

#[test]
fn least_conn_takes_the_first_of_equals() {
    let mut pool = BackendPool::new();
    pool.add_backend(backend("a", None));
    pool.add_backend(backend("b", None));
    pool.add_backend(backend("c", Some(1)));
    let order: Vec<String> =
        (0..6).map(|_| next_id(&mut pool, LoadBalancingMode::LeastConn)).collect();
    assert_eq!(order, vec!["a", "b", "c", "a", "b", "a"]);
}

#[test]
fn release_undoes_a_lease_and_stops_at_zero() {
    let mut pool = BackendPool::new();
    pool.add_backend(backend("a", Some(2)));
    let lease = leased(pool.acquire(LoadBalancingMode::LeastConn));
    assert_eq!(pool.list_backends()[0].active_connections, 1);
    pool.release(lease.backend_id());
    assert_eq!(pool.list_backends()[0].active_connections, 0);
    pool.release("a");
    assert_eq!(pool.list_backends()[0].active_connections, 0);
    pool.release("unknown");
    assert_eq!(pool.list_backends()[0].active_connections, 0);
}

#[test]
fn release_counts_for_the_first_of_equal_ids() {
    let mut pool = BackendPool::new();
    pool.add_backend(backend("a", None));
    pool.add_backend(backend("a", None));
    next_id(&mut pool, LoadBalancingMode::Queue);
    next_id(&mut pool, LoadBalancingMode::Queue);
    pool.release("a");
    pool.release("a");
    let views = pool.list_backends();
    assert_eq!(views[0].active_connections, 0);
    assert_eq!(views[1].active_connections, 1);
}

#[test]
fn remove_reports_the_connections_and_resets_the_turn() {
    let mut pool = BackendPool::new();
    pool.add_backend(backend("a", None));
    pool.add_backend(backend("b", None));
    assert_eq!(next_id(&mut pool, LoadBalancingMode::Queue), "a");
    // the turn is at the last backend, which is removed
    let removed = pool.remove_backend("b").unwrap();
    assert_eq!(removed.id, "b");
    assert_eq!(removed.active_connections, 0);
    assert_eq!(next_id(&mut pool, LoadBalancingMode::Queue), "a");
    let removed = pool.remove_backend("a").unwrap();
    assert_eq!(removed.active_connections, 2);
    assert!(pool.remove_backend("a").is_none());
    assert!(pool.list_backends().is_empty());
}

#[test]
fn remove_keeps_the_turn() {
    let queue = LoadBalancingMode::Queue;
    let pool_after = |served: usize| {
        let mut pool = BackendPool::new();
        for id in ["a", "b", "c"] {
            pool.add_backend(backend(id, None));
        }
        for _ in 0..served {
            next_id(&mut pool, queue);
        }
        pool
    };
    let order = |pool: &mut BackendPool| -> Vec<String> {
        (0..3).map(|_| next_id(pool, queue)).collect()
    };

    // in front of the turn
    let mut pool = pool_after(2);
    pool.remove_backend("a");
    assert_eq!(order(&mut pool), vec!["c", "b", "c"]);
    let mut pool = pool_after(1);
    pool.remove_backend("a");
    assert_eq!(order(&mut pool), vec!["b", "c", "b"]);
    // at the turn
    let mut pool = pool_after(1);
    pool.remove_backend("b");
    assert_eq!(order(&mut pool), vec!["c", "a", "c"]);
    let mut pool = pool_after(2);
    pool.remove_backend("c");
    assert_eq!(order(&mut pool), vec!["a", "b", "a"]);
    // behind the turn
    let mut pool = pool_after(1);
    pool.remove_backend("c");
    assert_eq!(order(&mut pool), vec!["b", "a", "b"]);
    let mut pool = pool_after(3);
    pool.remove_backend("b");
    assert_eq!(order(&mut pool), vec!["a", "c", "a"]);
}

#[test]
fn queue_is_round_robin_with_limits_and_releases() {
    let mut pool = BackendPool::new();
    pool.add_backend(backend("a", Some(2)));
    pool.add_backend(backend("b", Some(1)));
    pool.add_backend(backend("c", None));
    let mut order = Vec::new();
    for _ in 0..7 {
        let id = next_id(&mut pool, LoadBalancingMode::Queue);
        pool.release(&id);
        // a lease in the other mode does not take a turn
        let other = next_id(&mut pool, LoadBalancingMode::LeastConn);
        pool.release(&other);
        order.push(id);
    }
    assert_eq!(order, vec!["a", "b", "c", "a", "b", "c", "a"]);
}

#[test]
fn remove_right_after_add_leaves_the_pool_as_it_was() {
    let mut pool = BackendPool::new();
    pool.add_backend(backend("a", None));
    pool.add_backend(backend("b", None));
    next_id(&mut pool, LoadBalancingMode::Queue);
    pool.add_backend(backend("c", None));
    let removed = pool.remove_backend("c").unwrap();
    assert_eq!(removed.active_connections, 0);
    assert_eq!(pool.list_backends().len(), 2);
    assert_eq!(next_id(&mut pool, LoadBalancingMode::Queue), "b");
}

#[test]
fn connections_count_leases() {
    let mut pool = BackendPool::new();
    pool.add_backend(backend("a", None));
    pool.add_backend(backend("b", Some(2)));
    let mut held: Vec<String> = Vec::new();
    for step in 0..12 {
        for view in pool.list_backends() {
            let leases = held.iter().filter(|id| **id == view.id).count();
            assert_eq!(view.active_connections, leases);
            assert!(leases <= view.max_connections.unwrap_or(leases));
        }
        if step % 3 == 2 {
            pool.release(&held.remove(0));
        } else {
            held.push(next_id(&mut pool, LoadBalancingMode::Queue));
        }
    }
    // a lease of a backend that was removed is given back to nobody
    pool.remove_backend("a");
    pool.release("a");
    let views = pool.list_backends();
    assert_eq!(views.len(), 1);
    assert_eq!(views[0].active_connections, held.iter().filter(|id| *id == "b").count());
}
