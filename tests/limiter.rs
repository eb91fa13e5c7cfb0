use cadence::gate::{entity_key_for, gate, gate_at};
use cadence::limiter::{
    BucketConfig, BucketState, ConfigError, Decision, LimitEntityType, LimitError, Limiter,
};

fn policy(name: &str, max: u64, cycle_ms: u64) -> BucketConfig {
    BucketConfig::new(name.to_string(), LimitEntityType::ProxiedIP, max, cycle_ms).unwrap()
}

#[test]
fn config_rejects_zero_limit() {
    let r = BucketConfig::new("p".to_string(), LimitEntityType::ProxiedIP, 0, 1000);
    assert_eq!(r.err(), Some(ConfigError::ZeroRequestLimit));
}

#[test]
fn config_rejects_zero_cycle() {
    let r = BucketConfig::new("p".to_string(), LimitEntityType::ProxiedIP, 5, 0);
    assert_eq!(r.err(), Some(ConfigError::ZeroCycleDuration));
}

#[test]
fn config_keeps_its_values() {
    let c = policy("global", 20, 60_000);
    assert_eq!(c.name().as_str(), "global");
    assert_eq!(c.limit_by(), LimitEntityType::ProxiedIP);
    assert_eq!(c.max_requests_per_cycle(), 20);
    assert_eq!(c.cycle_duration_ms(), 60_000);
}

#[test]
fn empty_entity_key_is_refused() {
    let mut l = Limiter::new();
    let c = policy("p", 3, 1000);
    assert_eq!(l.check_and_increment_at(&c, "", 0), Err(LimitError::EmptyEntityKey));
    assert_eq!(l.check_and_increment(&c, ""), Err(LimitError::EmptyEntityKey));
}

#[test]
fn first_n_admitted_then_rejected() {
    let mut l = Limiter::new();
    let c = policy("p", 3, 1000);
    assert_eq!(l.check_and_increment_at(&c, "a", 10), Ok(Decision::Admitted { remaining: 2 }));
    assert_eq!(l.check_and_increment_at(&c, "a", 11), Ok(Decision::Admitted { remaining: 1 }));
    assert_eq!(l.check_and_increment_at(&c, "a", 12), Ok(Decision::Admitted { remaining: 0 }));
    assert_eq!(l.check_and_increment_at(&c, "a", 13), Ok(Decision::Rejected { retry_after_ms: 997 }));
    assert_eq!(l.check_and_increment_at(&c, "a", 500), Ok(Decision::Rejected { retry_after_ms: 510 }));
}

#[test]
fn rollover_after_cycle_admits_again() {
    let mut l = Limiter::new();
    let c = policy("p", 2, 1000);
    l.check_and_increment_at(&c, "a", 0).unwrap();
    l.check_and_increment_at(&c, "a", 1).unwrap();
    assert!(matches!(l.check_and_increment_at(&c, "a", 999), Ok(Decision::Rejected { .. })));
    assert_eq!(l.check_and_increment_at(&c, "a", 1000), Ok(Decision::Admitted { remaining: 1 }));
    assert_eq!(l.check_and_increment_at(&c, "a", 1500), Ok(Decision::Admitted { remaining: 0 }));
    assert_eq!(l.check_and_increment_at(&c, "a", 1600), Ok(Decision::Rejected { retry_after_ms: 400 }));
}

#[test]
fn distinct_keys_are_independent() {
    let mut l = Limiter::new();
    let c = policy("p", 1, 1000);
    assert_eq!(l.check_and_increment_at(&c, "a", 0), Ok(Decision::Admitted { remaining: 0 }));
    assert!(matches!(l.check_and_increment_at(&c, "a", 1), Ok(Decision::Rejected { .. })));
    assert_eq!(l.check_and_increment_at(&c, "b", 2), Ok(Decision::Admitted { remaining: 0 }));
}

#[test]
fn distinct_policies_are_independent() {
    let mut l = Limiter::new();
    let global = policy("global", 1, 1000);
    let route = policy("route", 2, 1000);
    assert_eq!(l.check_and_increment_at(&global, "a", 0), Ok(Decision::Admitted { remaining: 0 }));
    assert!(matches!(l.check_and_increment_at(&global, "a", 1), Ok(Decision::Rejected { .. })));
    assert_eq!(l.check_and_increment_at(&route, "a", 2), Ok(Decision::Admitted { remaining: 1 }));
}

#[test]
fn burst_admits_exactly_the_limit() {
    let mut l = Limiter::new();
    let c = policy("p", 5, 60_000);
    let mut admitted = 0;
    let mut rejected = 0;
    for t in 0..12u64 {
        match l.check_and_increment_at(&c, "a", t).unwrap() {
            Decision::Admitted { .. } => admitted += 1,
            Decision::Rejected { .. } => rejected += 1,
        }
    }
    assert_eq!(admitted, 5);
    assert_eq!(rejected, 7);
}

#[test]
fn concurrent_callers_under_a_lock_get_exactly_the_limit() {
    let limiter = std::sync::Arc::new(tokio::sync::Mutex::new(Limiter::new()));
    let c = std::sync::Arc::new(policy("p", 10, 60_000));
    let rt = tokio::runtime::Builder::new_multi_thread().worker_threads(4).build().unwrap();
    let admitted = rt.block_on(async {
        let mut handles = Vec::new();
        for _ in 0..25 {
            let l = limiter.clone();
            let c = c.clone();
            handles.push(tokio::spawn(async move {
                let mut guard = l.lock().await;
                matches!(guard.check_and_increment(&c, "1.2.3.4"), Ok(Decision::Admitted { .. }))
            }));
        }
        let mut n = 0;
        for h in handles {
            if h.await.unwrap() {
                n += 1;
            }
        }
        n
    });
    assert_eq!(admitted, 10);
}

#[test]
fn remaining_counts_down_by_one() {
    let mut l = Limiter::new();
    let c = policy("p", 4, 1000);
    let mut last: Option<u64> = None;
    for t in 0..4u64 {
        if let Ok(Decision::Admitted { remaining }) = l.check_and_increment_at(&c, "a", t) {
            if let Some(prev) = last {
                assert_eq!(remaining + 1, prev);
            }
            last = Some(remaining);
        } else {
            panic!("expected admission");
        }
    }
    assert_eq!(last, Some(0));
}

#[test]
fn retry_after_stays_within_one_cycle() {
    let mut l = Limiter::new();
    let c = policy("p", 1, 100);
    l.check_and_increment_at(&c, "a", 50).unwrap();
    for t in [50u64, 51, 99, 149] {
        match l.check_and_increment_at(&c, "a", t).unwrap() {
            Decision::Rejected { retry_after_ms } => {
                assert!(retry_after_ms > 0 && retry_after_ms <= 100);
                assert_eq!(retry_after_ms, 100 - (t - 50));
            }
            other => panic!("unexpected {:?}", other),
        }
    }
}

#[test]
fn clock_behind_cycle_start_waits_a_full_cycle() {
    let mut l = Limiter::new();
    let c = policy("p", 1, 100);
    l.check_and_increment_at(&c, "a", 500).unwrap();
    assert_eq!(l.check_and_increment_at(&c, "a", 400), Ok(Decision::Rejected { retry_after_ms: 100 }));
}

#[test]
fn global_policy_example() {
    let mut l = Limiter::new();
    let c = policy("global", 20, 60_000);
    for i in 0..20u64 {
        let d = l.check_and_increment_at(&c, "1.2.3.4", i * 50).unwrap();
        assert_eq!(d, Decision::Admitted { remaining: 19 - i });
    }
    assert_eq!(l.check_and_increment_at(&c, "5.6.7.8", 990), Ok(Decision::Admitted { remaining: 19 }));
    assert_eq!(
        l.check_and_increment_at(&c, "1.2.3.4", 1000),
        Ok(Decision::Rejected { retry_after_ms: 59_000 })
    );
}

#[test]
fn global_policy_example_on_the_live_clock() {
    let mut l = Limiter::new();
    let c = policy("global", 20, 60_000);
    for i in 0..20u64 {
        assert_eq!(l.check_and_increment(&c, "1.2.3.4"), Ok(Decision::Admitted { remaining: 19 - i }));
    }
    assert_eq!(l.check_and_increment(&c, "5.6.7.8"), Ok(Decision::Admitted { remaining: 19 }));
    match l.check_and_increment(&c, "1.2.3.4") {
        Ok(Decision::Rejected { retry_after_ms }) => {
            assert!(retry_after_ms > 58_000 && retry_after_ms <= 60_000)
        }
        other => panic!("unexpected {:?}", other),
    }
}

#[test]
fn eviction_removes_only_stale_buckets() {
    let mut l = Limiter::new();
    let c = policy("p", 1, 100);
    l.check_and_increment_at(&c, "old", 0).unwrap();
    l.check_and_increment_at(&c, "new", 450).unwrap();
    l.evict_stale_at(200, 500);
    assert_eq!(l.state_of("p", "old"), None);
    assert_eq!(
        l.state_of("p", "new"),
        Some(BucketState { count: 1, cycle_start: 450, cycle_ms: 100, last_seen: 450 })
    );
    assert_eq!(l.check_and_increment_at(&c, "old", 501), Ok(Decision::Admitted { remaining: 0 }));
    assert_eq!(l.check_and_increment_at(&c, "new", 501), Ok(Decision::Rejected { retry_after_ms: 49 }));
}

#[test]
fn eviction_keeps_buckets_whose_cycle_runs_on() {
    let mut l = Limiter::new();
    let c = policy("p", 1, 60_000);
    l.check_and_increment_at(&c, "a", 0).unwrap();
    // A horizon shorter than the cycle must not hand out a second admission.
    l.evict_stale_at(10, 15_000);
    assert!(l.state_of("p", "a").is_some());
    assert!(matches!(l.check_and_increment_at(&c, "a", 15_001), Ok(Decision::Rejected { .. })));
}

#[test]
fn eviction_keeps_recently_touched_buckets() {
    let mut l = Limiter::new();
    let c = policy("p", 1, 100);
    l.check_and_increment_at(&c, "a", 0).unwrap();
    l.check_and_increment_at(&c, "a", 90).unwrap();
    l.evict_stale_at(50, 120);
    assert_eq!(
        l.state_of("p", "a"),
        Some(BucketState { count: 1, cycle_start: 0, cycle_ms: 100, last_seen: 90 })
    );
    l.evict_stale_at(50, 141);
    assert_eq!(l.state_of("p", "a"), None);
}

#[test]
fn eviction_on_the_live_clock_keeps_fresh_buckets() {
    let mut l = Limiter::new();
    let c = policy("p", 1, 60_000);
    l.check_and_increment(&c, "a").unwrap();
    l.evict_stale(60_000);
    assert!(matches!(l.check_and_increment(&c, "a"), Ok(Decision::Rejected { .. })));
}

#[test]
fn entity_key_prefers_first_forwarded_hop() {
    let k = entity_key_for(LimitEntityType::ProxiedIP, Some("  9.9.9.9 , 10.0.0.1"), Some("127.0.0.1"));
    assert_eq!(k, "9.9.9.9");
}

#[test]
fn entity_key_falls_back_to_peer() {
    let k = entity_key_for(LimitEntityType::ProxiedIP, Some(" ,1.1.1.1"), Some("127.0.0.1"));
    assert_eq!(k, "127.0.0.1");
    let k = entity_key_for(LimitEntityType::ProxiedIP, None, Some("10.1.2.3"));
    assert_eq!(k, "10.1.2.3");
}

#[test]
fn entity_key_falls_back_to_unknown() {
    assert_eq!(entity_key_for(LimitEntityType::ProxiedIP, None, None), "unknown");
    assert_eq!(entity_key_for(LimitEntityType::ProxiedIP, Some(""), Some("")), "unknown");
}

#[test]
fn gate_rejects_when_any_policy_rejects() {
    let mut l = Limiter::new();
    let configs = vec![policy("global", 3, 1000), policy("route", 1, 500)];
    assert_eq!(gate_at(&mut l, &configs, Some("1.2.3.4"), None, 0), Some(Decision::Admitted { remaining: 0 }));
    assert_eq!(
        gate_at(&mut l, &configs, Some("1.2.3.4"), None, 100),
        Some(Decision::Rejected { retry_after_ms: 400 })
    );
    // The global policy still counted the second request.
    assert_eq!(gate_at(&mut l, &configs, Some("1.2.3.4"), None, 600), Some(Decision::Admitted { remaining: 0 }));
    assert_eq!(gate_at(&mut l, &Vec::new(), Some("1.2.3.4"), None, 700), None);
}

#[test]
fn gate_reports_rate_limit_error() {
    let mut l = Limiter::new();
    let configs = vec![policy("global", 1, 60_000)];
    assert_eq!(gate(&mut l, &configs, None, Some("1.2.3.4")).unwrap(), Some(0));
    let e = gate(&mut l, &configs, None, Some("1.2.3.4")).unwrap_err();
    assert_eq!(e.kind(), "rate_limited");
    assert_eq!(e.message, "Too many requests.");
    assert_eq!(l.state_of("global", "1.2.3.4").map(|b| b.count), Some(1));
    assert!(e.retry_after_ms > 0 && e.retry_after_ms <= 60_000);
    assert_eq!(gate(&mut l, &Vec::new(), None, None).unwrap(), None);
}

#[test]
fn largest_limit_counts_from_the_top() {
    let mut l = Limiter::new();
    let c = policy("p", u64::MAX, u64::MAX);
    assert_eq!(l.check_and_increment_at(&c, "a", u64::MAX), Ok(Decision::Admitted { remaining: u64::MAX - 1 }));
    assert_eq!(l.check_and_increment_at(&c, "a", 0), Ok(Decision::Admitted { remaining: u64::MAX - 2 }));
}

#[test]
fn eviction_near_the_end_of_time_does_not_overflow() {
    let mut l = Limiter::new();
    let c = policy("p", 1, 10);
    l.check_and_increment_at(&c, "a", u64::MAX - 20).unwrap();
    l.evict_stale_at(u64::MAX, u64::MAX);
    assert!(l.state_of("p", "a").is_some());
    l.evict_stale_at(1, u64::MAX - 15);
    assert!(l.state_of("p", "a").is_some());
    l.evict_stale_at(1, u64::MAX);
    assert_eq!(l.state_of("p", "a"), None);
}
