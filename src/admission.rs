//! What the limiter guarantees across calls, stated over its registry model.
use vstd::prelude::*;

use crate::limiter::{
    admit_step, elapsed, is_stale, state_at, BucketConfig, BucketKey, BucketState, Decision,
};

verus! {

/// The registry and the decisions after checking `key` under `config` at
/// each time of `times` in turn, starting from `reg`.
pub open spec fn run(
    reg: Map<BucketKey, BucketState>,
    config: BucketConfig,
    key: Seq<char>,
    times: Seq<u64>,
) -> (Map<BucketKey, BucketState>, Seq<Decision>)
    decreases times.len(),
{
    if times.len() == 0 {
        (reg, Seq::empty())
    } else {
        let prev = run(reg, config, key, times.drop_last());
        let next = admit_step(prev.0, config, key, times.last());
        (next.0, prev.1.push(next.1))
    }
}

/// How many decisions of `ds` admitted their request.
pub open spec fn admitted_count(ds: Seq<Decision>) -> nat
    decreases ds.len(),
{
    if ds.len() == 0 {
        0
    } else {
        admitted_count(ds.drop_last()) + if ds.last() is Admitted {
            1nat
        } else {
            0nat
        }
    }
}

/// The decision owed to the `i`-th request of a cycle that began at `start`,
/// when that request arrives at `now`.
pub open spec fn in_cycle_decision(i: int, limit: u64, cycle: u64, start: u64, now: u64) -> Decision {
    if i < limit {
        Decision::Admitted { remaining: (limit - 1 - i) as u64 }
    } else {
        Decision::Rejected { retry_after_ms: (cycle - elapsed(start, now)) as u64 }
    }
}

/// Admission ceiling: when a caller's cycle starts with the first of a run of
/// requests and all of them come before it ends, the first `limit` requests
/// are admitted, with `remaining` counting down to zero, and every later one
/// is rejected. The bucket then holds `min(len, limit)` requests.
pub proof fn lemma_cycle_admissions(
    reg: Map<BucketKey, BucketState>,
    config: BucketConfig,
    key: Seq<char>,
    times: Seq<u64>,
)
    requires
        config.limit() > 0,
        config.cycle() > 0,
        times.len() > 0,
        !reg.contains_key((config.policy(), key)) || elapsed(
            reg[(config.policy(), key)].cycle_start,
            times[0],
        ) >= config.cycle(),
        forall|i: int| 0 <= i < times.len() ==> #[trigger] times[i] < times[0] + config.cycle(),
    ensures
        run(reg, config, key, times).1.len() == times.len(),
        forall|i: int|
            0 <= i < times.len() ==> #[trigger] run(reg, config, key, times).1[i] == in_cycle_decision(
                i,
                config.limit(),
                config.cycle(),
                times[0],
                times[i],
            ),
        run(reg, config, key, times).0.contains_key((config.policy(), key)),
        run(reg, config, key, times).0[(config.policy(), key)] == (BucketState {
            count: if times.len() < config.limit() {
                times.len() as u64
            } else {
                config.limit()
            },
            cycle_start: times[0],
            cycle_ms: config.cycle(),
            last_seen: times[times.len() - 1],
        }),
    decreases times.len(),
{
    let k = (config.policy(), key);
    if times.len() == 1 {
        assert(times.drop_last().len() == 0);
        assert(run(reg, config, key, times.drop_last()).0 == reg);
        assert(times.last() == times[0]);
    } else {
        let t = times.drop_last();
        assert forall|i: int| 0 <= i < t.len() implies #[trigger] t[i] < t[0] + config.cycle() by {
            assert(t[i] == times[i]);
        }
        lemma_cycle_admissions(reg, config, key, t);
        assert(times[times.len() - 1] < times[0] + config.cycle());
        let prev = run(reg, config, key, t);
        let r = run(reg, config, key, times);
        assert forall|i: int| 0 <= i < times.len() implies #[trigger] r.1[i] == in_cycle_decision(
            i,
            config.limit(),
            config.cycle(),
            times[0],
            times[i],
        ) by {
            if i < t.len() {
                assert(r.1[i] == prev.1[i]);
                assert(t[i] == times[i]);
            }
        }
    }
}

/// Concurrency safety: requests of one caller within one cycle are admitted
/// exactly `min(M, limit)` times out of `M`, whatever the order in which a
/// lock lets them through.
pub proof fn lemma_burst_admits_exactly_limit(
    reg: Map<BucketKey, BucketState>,
    config: BucketConfig,
    key: Seq<char>,
    times: Seq<u64>,
)
    requires
        config.limit() > 0,
        config.cycle() > 0,
        times.len() > 0,
        !reg.contains_key((config.policy(), key)) || elapsed(
            reg[(config.policy(), key)].cycle_start,
            times[0],
        ) >= config.cycle(),
        forall|i: int| 0 <= i < times.len() ==> #[trigger] times[i] < times[0] + config.cycle(),
    ensures
        admitted_count(run(reg, config, key, times).1) == if times.len() < config.limit() {
            times.len()
        } else {
            config.limit() as nat
        },
        times.len() - admitted_count(run(reg, config, key, times).1) == if times.len()
            < config.limit() {
            0
        } else {
            times.len() - config.limit()
        },
{
    lemma_cycle_admissions(reg, config, key, times);
    let ds = run(reg, config, key, times).1;
    lemma_count_prefix_admitted(ds, config.limit() as int);
}

proof fn lemma_count_prefix_admitted(ds: Seq<Decision>, n: int)
    requires
        n >= 0,
        forall|i: int| 0 <= i < ds.len() ==> (#[trigger] ds[i] is Admitted <==> i < n),
    ensures
        admitted_count(ds) == if ds.len() < n {
            ds.len()
        } else {
            n as nat
        },
    decreases ds.len(),
{
    if ds.len() > 0 {
        let t = ds.drop_last();
        assert forall|i: int| 0 <= i < t.len() implies (#[trigger] t[i] is Admitted <==> i < n) by {
            assert(t[i] == ds[i]);
        }
        lemma_count_prefix_admitted(t, n);
        assert(ds.last() == ds[ds.len() - 1]);
    }
}

/// Remaining accuracy: within one cycle, each admitted request reports one
/// less `remaining` than the admitted request before it.
pub proof fn lemma_remaining_counts_down(
    reg: Map<BucketKey, BucketState>,
    config: BucketConfig,
    key: Seq<char>,
    times: Seq<u64>,
    i: int,
)
    requires
        config.limit() > 0,
        config.cycle() > 0,
        times.len() > 0,
        !reg.contains_key((config.policy(), key)) || elapsed(
            reg[(config.policy(), key)].cycle_start,
            times[0],
        ) >= config.cycle(),
        forall|j: int| 0 <= j < times.len() ==> #[trigger] times[j] < times[0] + config.cycle(),
        0 <= i,
        i + 1 < times.len(),
        run(reg, config, key, times).1[i + 1] is Admitted,
    ensures
        run(reg, config, key, times).1[i] is Admitted,
        run(reg, config, key, times).1[i]->remaining == run(reg, config, key, times).1[i
            + 1]->remaining + 1,
{
    lemma_cycle_admissions(reg, config, key, times);
    assert(run(reg, config, key, times).1[i] == in_cycle_decision(
        i,
        config.limit(),
        config.cycle(),
        times[0],
        times[i],
    ));
    assert(run(reg, config, key, times).1[i + 1] == in_cycle_decision(
        i + 1,
        config.limit(),
        config.cycle(),
        times[0],
        times[i + 1],
    ));
}

/// Cycle rollover: once a cycle has run its length, the next request starts
/// a new cycle and is admitted, however full the old one was.
pub proof fn lemma_cycle_rollover(
    reg: Map<BucketKey, BucketState>,
    config: BucketConfig,
    key: Seq<char>,
    now: u64,
)
    requires
        config.limit() > 0,
        reg.contains_key((config.policy(), key)),
        elapsed(reg[(config.policy(), key)].cycle_start, now) >= config.cycle(),
    ensures
        admit_step(reg, config, key, now).1 == (Decision::Admitted {
            remaining: (config.limit() - 1) as u64,
        }),
        admit_step(reg, config, key, now).0[(config.policy(), key)] == (BucketState {
            count: 1,
            cycle_start: now,
            cycle_ms: config.cycle(),
            last_seen: now,
        }),
{
}

/// Retry-after bound: a rejection always asks the caller to wait more than
/// nothing and no longer than one cycle.
pub proof fn lemma_retry_after_bounds(
    reg: Map<BucketKey, BucketState>,
    config: BucketConfig,
    key: Seq<char>,
    now: u64,
)
    requires
        config.cycle() > 0,
    ensures
        admit_step(reg, config, key, now).1 matches Decision::Rejected { retry_after_ms } ==> 0
            < retry_after_ms <= config.cycle(),
{
}

/// Requests of one bucket leave every other bucket as it was, and so leave
/// the decision that any other bucket's next request gets.
pub proof fn lemma_buckets_independent(
    reg: Map<BucketKey, BucketState>,
    config: BucketConfig,
    key: Seq<char>,
    times: Seq<u64>,
    other_config: BucketConfig,
    other_key: Seq<char>,
    now: u64,
)
    requires
        (config.policy(), key) != (other_config.policy(), other_key),
    ensures
        run(reg, config, key, times).0.contains_key((other_config.policy(), other_key))
            == reg.contains_key((other_config.policy(), other_key)),
        reg.contains_key((other_config.policy(), other_key)) ==> run(
            reg,
            config,
            key,
            times,
        ).0[(other_config.policy(), other_key)] == reg[(other_config.policy(), other_key)],
        admit_step(run(reg, config, key, times).0, other_config, other_key, now).1 == admit_step(
            reg,
            other_config,
            other_key,
            now,
        ).1,
    decreases times.len(),
{
    if times.len() > 0 {
        lemma_buckets_independent(
            reg,
            config,
            key,
            times.drop_last(),
            other_config,
            other_key,
            now,
        );
    }
    let m = run(reg, config, key, times).0;
    assert(state_at(m, other_config, other_key, now) == state_at(reg, other_config, other_key, now));
}

/// Key isolation: under one policy, any run of requests from one caller
/// leaves another caller's bucket, and its next decision, as they were.
pub proof fn lemma_key_isolation(
    reg: Map<BucketKey, BucketState>,
    config: BucketConfig,
    key: Seq<char>,
    times: Seq<u64>,
    other_key: Seq<char>,
    now: u64,
)
    requires
        key != other_key,
    ensures
        run(reg, config, key, times).0.contains_key((config.policy(), other_key)) == reg.contains_key(
            (config.policy(), other_key),
        ),
        reg.contains_key((config.policy(), other_key)) ==> run(reg, config, key, times).0[(
        config.policy(),
        other_key,
        )] == reg[(config.policy(), other_key)],
        admit_step(run(reg, config, key, times).0, config, other_key, now).1 == admit_step(
            reg,
            config,
            other_key,
            now,
        ).1,
{
    lemma_buckets_independent(reg, config, key, times, config, other_key, now);
}

/// Policy isolation: for one caller, any run of requests under one policy
/// leaves the caller's bucket under a policy of another name, and its next
/// decision there, as they were.
pub proof fn lemma_policy_isolation(
    reg: Map<BucketKey, BucketState>,
    config: BucketConfig,
    other_config: BucketConfig,
    key: Seq<char>,
    times: Seq<u64>,
    now: u64,
)
    requires
        config.policy() != other_config.policy(),
    ensures
        run(reg, config, key, times).0.contains_key((other_config.policy(), key)) == reg.contains_key(
            (other_config.policy(), key),
        ),
        reg.contains_key((other_config.policy(), key)) ==> run(reg, config, key, times).0[(
        other_config.policy(),
        key,
        )] == reg[(other_config.policy(), key)],
        admit_step(run(reg, config, key, times).0, other_config, key, now).1 == admit_step(
            reg,
            other_config,
            key,
            now,
        ).1,
{
    lemma_buckets_independent(reg, config, key, times, other_config, key, now);
}

/// Eviction changes no decision, whatever its horizon: a bucket it removes
/// had run out the cycle of the policy that made it, and a missing bucket
/// starts a new cycle just as an expired one does.
pub proof fn lemma_eviction_keeps_decisions(
    reg: Map<BucketKey, BucketState>,
    evicted: Map<BucketKey, BucketState>,
    older_than_ms: u64,
    evicted_at: u64,
    config: BucketConfig,
    key: Seq<char>,
    now: u64,
)
    requires
        reg.contains_key((config.policy(), key)) ==> reg[(config.policy(), key)].cycle_ms
            == config.cycle(),
        evicted_at <= now,
        forall|k: BucketKey| #[trigger]
            evicted.contains_key(k) <==> reg.contains_key(k) && !is_stale(
                reg[k],
                older_than_ms,
                evicted_at,
            ),
        forall|k: BucketKey| #[trigger] evicted.contains_key(k) ==> evicted[k] == reg[k],
    ensures
        admit_step(evicted, config, key, now).1 == admit_step(reg, config, key, now).1,
        admit_step(evicted, config, key, now).0[(config.policy(), key)] == admit_step(
            reg,
            config,
            key,
            now,
        ).0[(config.policy(), key)],
{
    assert(state_at(evicted, config, key, now) == state_at(reg, config, key, now));
}

/// The count never passes the limit: a bucket that held at most `limit`
/// requests still does after a check, and an admitted request reports
/// `remaining` as exactly the limit less the new count.
pub proof fn lemma_count_within_limit(
    reg: Map<BucketKey, BucketState>,
    config: BucketConfig,
    key: Seq<char>,
    now: u64,
)
    requires
        config.limit() > 0,
        reg.contains_key((config.policy(), key)) ==> reg[(config.policy(), key)].count
            <= config.limit(),
    ensures
        admit_step(reg, config, key, now).0[(config.policy(), key)].count <= config.limit(),
        admit_step(reg, config, key, now).1 matches Decision::Admitted { remaining } ==> remaining
            == config.limit() - admit_step(reg, config, key, now).0[(config.policy(), key)].count,
{
}

/// Every bucket of a registry that a policy alone has filled, starting
/// empty, holds at most that policy's limit, whatever the callers and times.
pub proof fn lemma_counts_stay_within_limit(
    config: BucketConfig,
    keys: Seq<Seq<char>>,
    times: Seq<u64>,
    k: BucketKey,
)
    requires
        config.limit() > 0,
        keys.len() == times.len(),
    ensures
        mixed_run(Map::empty(), config, keys, times).contains_key(k) ==> mixed_run(
            Map::empty(),
            config,
            keys,
            times,
        )[k].count <= config.limit(),
    decreases keys.len(),
{
    if keys.len() > 0 {
        let n = keys.len() - 1;
        lemma_counts_stay_within_limit(config, keys.drop_last(), times.drop_last(), k);
        let prev = mixed_run(Map::empty(), config, keys.drop_last(), times.drop_last());
        lemma_counts_stay_within_limit(
            config,
            keys.drop_last(),
            times.drop_last(),
            (config.policy(), keys[n]),
        );
        lemma_count_within_limit(prev, config, keys[n], times[n]);
    }
}

/// The registry after the `i`-th request of `keys` is checked under `config`
/// at the `i`-th time of `times`, in turn.
pub open spec fn mixed_run(
    reg: Map<BucketKey, BucketState>,
    config: BucketConfig,
    keys: Seq<Seq<char>>,
    times: Seq<u64>,
) -> Map<BucketKey, BucketState>
    decreases keys.len(),
{
    if keys.len() == 0 || times.len() != keys.len() {
        reg
    } else {
        admit_step(
            mixed_run(reg, config, keys.drop_last(), times.drop_last()),
            config,
            keys.last(),
            times.last(),
        ).0
    }
}

} // verus!
