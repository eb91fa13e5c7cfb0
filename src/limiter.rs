//! Fixed-window rate limiting, keyed by policy name and caller.
//!
//! Each `(policy name, entity key)` pair owns one bucket holding the number of
//! requests admitted in the current cycle and the time at which that cycle
//! began. Times are milliseconds on a monotonic clock.
use vstd::prelude::*;

verus! {

/// The dimension by which callers are grouped under a policy.
#[derive(Clone, Copy, Debug, PartialEq, Eq, Structural)]
pub enum LimitEntityType {
    /// The client address reported by a trusted reverse proxy, or the peer address.
    ProxiedIP,
}

/// Why a policy could not be built.
#[derive(Clone, Copy, Debug, PartialEq, Eq, Structural)]
pub enum ConfigError {
    /// `max_requests_per_cycle` was zero.
    ZeroRequestLimit,
    /// `cycle_duration_ms` was zero.
    ZeroCycleDuration,
}

/// One rate-limit policy. It can only be built with a positive limit and a
/// positive cycle, so every value of this type is usable.
#[derive(Debug)]
pub struct BucketConfig {
    name: String,
    limit_by: LimitEntityType,
    max_requests_per_cycle: u64,
    cycle_duration_ms: u64,
}

impl BucketConfig {
    #[verifier::type_invariant]
    spec fn inv(&self) -> bool {
        self.max_requests_per_cycle > 0 && self.cycle_duration_ms > 0
    }

    /// The policy name, part of every bucket key.
    pub closed spec fn policy(&self) -> Seq<char> {
        self.name@
    }

    pub closed spec fn dimension(&self) -> LimitEntityType {
        self.limit_by
    }

    /// The admission ceiling of one cycle.
    pub closed spec fn limit(&self) -> u64 {
        self.max_requests_per_cycle
    }

    /// The length of one cycle in milliseconds.
    pub closed spec fn cycle(&self) -> u64 {
        self.cycle_duration_ms
    }

    pub fn new(
        name: String,
        limit_by: LimitEntityType,
        max_requests_per_cycle: u64,
        cycle_duration_ms: u64,
    ) -> (r: Result<BucketConfig, ConfigError>)
        ensures
            max_requests_per_cycle == 0 ==> r == Err::<BucketConfig, ConfigError>(
                ConfigError::ZeroRequestLimit,
            ),
            max_requests_per_cycle > 0 && cycle_duration_ms == 0 ==> r == Err::<
                BucketConfig,
                ConfigError,
            >(ConfigError::ZeroCycleDuration),
            max_requests_per_cycle > 0 && cycle_duration_ms > 0 ==> (r matches Ok(c) && c.policy()
                == name@ && c.dimension() == limit_by && c.limit() == max_requests_per_cycle
                && c.cycle() == cycle_duration_ms),
    {
        if max_requests_per_cycle == 0 {
            Err(ConfigError::ZeroRequestLimit)
        } else if cycle_duration_ms == 0 {
            Err(ConfigError::ZeroCycleDuration)
        } else {
            Ok(BucketConfig { name, limit_by, max_requests_per_cycle, cycle_duration_ms })
        }
    }

    pub fn name(&self) -> (r: &String)
        ensures
            r@ == self.policy(),
    {
        &self.name
    }

    pub fn limit_by(&self) -> (r: LimitEntityType)
        ensures
            r == self.dimension(),
    {
        self.limit_by
    }

    pub fn max_requests_per_cycle(&self) -> (r: u64)
        ensures
            r == self.limit(),
            r > 0,
    {
        proof {
            use_type_invariant(self);
        }
        self.max_requests_per_cycle
    }

    pub fn cycle_duration_ms(&self) -> (r: u64)
        ensures
            r == self.cycle(),
            r > 0,
    {
        proof {
            use_type_invariant(self);
        }
        self.cycle_duration_ms
    }
}

/// The counter state of one bucket.
#[derive(Clone, Copy, Debug, PartialEq, Eq, Structural)]
pub struct BucketState {
    /// Requests admitted in the current cycle.
    pub count: u64,
    /// When the current cycle began.
    pub cycle_start: u64,
    /// The cycle length of the policy that last checked this bucket.
    pub cycle_ms: u64,
    /// When a request last met this bucket, admitted or not.
    pub last_seen: u64,
}

/// The outcome of one admission check.
#[derive(Clone, Copy, Debug, PartialEq, Eq, Structural)]
pub enum Decision {
    /// The request may proceed; `remaining` more fit in this cycle.
    Admitted { remaining: u64 },
    /// The request is refused; the caller's cycle ends in `retry_after_ms`.
    Rejected { retry_after_ms: u64 },
}

/// A request that cannot be checked at all.
#[derive(Clone, Copy, Debug, PartialEq, Eq, Structural)]
pub enum LimitError {
    /// The caller's entity key was empty.
    EmptyEntityKey,
}

/// A bucket key: policy name and entity key.
pub type BucketKey = (Seq<char>, Seq<char>);

/// Time gone by since `start`; zero if the clock reads earlier than `start`.
pub open spec fn elapsed(start: u64, now: u64) -> int {
    if now >= start {
        now - start
    } else {
        0
    }
}

/// The state a bucket is in at `now`, before the request is counted: a
/// missing bucket, or one whose cycle has run out, starts a new cycle.
pub open spec fn current_state(prior: Option<BucketState>, cycle: u64, now: u64) -> BucketState {
    match prior {
        Some(b) if elapsed(b.cycle_start, now) < cycle => b,
        _ => BucketState { count: 0, cycle_start: now, cycle_ms: cycle, last_seen: now },
    }
}

/// The decision for a request met by a bucket in state `cur`.
pub open spec fn decide(cur: BucketState, limit: u64, cycle: u64, now: u64) -> Decision {
    if cur.count < limit {
        Decision::Admitted { remaining: (limit - cur.count - 1) as u64 }
    } else {
        Decision::Rejected { retry_after_ms: (cycle - elapsed(cur.cycle_start, now)) as u64 }
    }
}

/// The bucket after the request at `now`: counted if admitted, and marked
/// as touched at `now` under a cycle of `cycle` either way.
pub open spec fn counted(cur: BucketState, limit: u64, cycle: u64, now: u64) -> BucketState {
    BucketState {
        count: if cur.count < limit {
            (cur.count + 1) as u64
        } else {
            cur.count
        },
        cycle_start: cur.cycle_start,
        cycle_ms: cycle,
        last_seen: now,
    }
}

/// The bucket state of `key` under `config` at `now`, before counting.
pub open spec fn state_at(
    reg: Map<BucketKey, BucketState>,
    config: BucketConfig,
    key: Seq<char>,
    now: u64,
) -> BucketState {
    let k = (config.policy(), key);
    current_state(
        if reg.contains_key(k) {
            Some(reg[k])
        } else {
            None
        },
        config.cycle(),
        now,
    )
}

/// One admission check on a registry of buckets: the registry afterwards
/// and the decision.
pub open spec fn admit_step(
    reg: Map<BucketKey, BucketState>,
    config: BucketConfig,
    key: Seq<char>,
    now: u64,
) -> (Map<BucketKey, BucketState>, Decision) {
    let cur = state_at(reg, config, key, now);
    (
        reg.insert((config.policy(), key), counted(cur, config.limit(), config.cycle(), now)),
        decide(cur, config.limit(), config.cycle(), now),
    )
}

/// Whether a bucket counts as stale at `now` for an eviction horizon of
/// `older_than_ms`: its cycle has run out, and no request has met it for
/// longer than the horizon. Dropping such a bucket changes no decision.
pub open spec fn is_stale(b: BucketState, older_than_ms: u64, now: u64) -> bool {
    now >= b.cycle_start + b.cycle_ms && b.last_seen + older_than_ms < now
}

#[verifier::external_type_specification]
#[verifier::external_body]
pub struct ExInstant(std::time::Instant);

/// Relies on std::time::Instant::now: a reading of the monotonic clock.
#[verifier::external_body]
fn monotonic_now() -> std::time::Instant {
    std::time::Instant::now()
}

/// Relies on std::time::Instant::elapsed: the time gone by since `epoch`.
#[verifier::external_body]
fn time_since(epoch: &std::time::Instant) -> std::time::Duration {
    epoch.elapsed()
}

/// Relies on std::time::Duration::as_millis: whole milliseconds of `d`.
#[verifier::external_body]
fn whole_millis(d: &std::time::Duration) -> u128 {
    d.as_millis()
}

/// A clock that never reads earlier than it has read before.
#[derive(Debug)]
struct MonotonicClock {
    epoch: std::time::Instant,
    latest_ms: u64,
}

impl MonotonicClock {
    fn start() -> (r: MonotonicClock)
        ensures
            r.latest_ms == 0,
    {
        MonotonicClock { epoch: monotonic_now(), latest_ms: 0 }
    }

    /// Milliseconds since the clock started, never less than the last reading.
    fn read(&mut self) -> (r: u64)
        ensures
            r >= old(self).latest_ms,
            final(self).latest_ms == r,
    {
        let ms = whole_millis(&time_since(&self.epoch));
        let ms64: u64 = if ms > u64::MAX as u128 {
            u64::MAX
        } else {
            ms as u64
        };
        if ms64 > self.latest_ms {
            self.latest_ms = ms64;
        }
        self.latest_ms
    }
}

/// One bucket as the limiter stores it.
#[derive(Debug)]
struct Bucket {
    name: String,
    key: String,
    state: BucketState,
}

impl Bucket {
    spec fn id(&self) -> BucketKey {
        (self.name@, self.key@)
    }
}

/// The registry that a sequence of stored buckets stands for.
spec fn registry(s: Seq<Bucket>) -> Map<BucketKey, BucketState>
    decreases s.len(),
{
    if s.len() == 0 {
        Map::empty()
    } else {
        registry(s.drop_last()).insert(s.last().id(), s.last().state)
    }
}

spec fn distinct_keys(s: Seq<Bucket>) -> bool {
    forall|i: int, j: int|
        0 <= i < s.len() && 0 <= j < s.len() && i != j ==> #[trigger] s[i].id() != #[trigger] s[j].id()
}

proof fn lemma_distinct_prefix(s: Seq<Bucket>, n: int)
    requires
        distinct_keys(s),
        0 <= n <= s.len(),
    ensures
        distinct_keys(s.take(n)),
{
    let t = s.take(n);
    assert forall|i: int, j: int|
        0 <= i < t.len() && 0 <= j < t.len() && i != j implies #[trigger] t[i].id() != #[trigger] t[j].id() by {
        assert(t[i] == s[i] && t[j] == s[j]);
    }
}

proof fn lemma_registry_has(s: Seq<Bucket>, k: BucketKey)
    ensures
        registry(s).contains_key(k) <==> exists|i: int| 0 <= i < s.len() && #[trigger] s[i].id() == k,
    decreases s.len(),
{
    if s.len() > 0 {
        let t = s.drop_last();
        lemma_registry_has(t, k);
        if registry(s).contains_key(k) {
            if s.last().id() == k {
                assert(s[s.len() - 1].id() == k);
            } else {
                let i = choose|i: int| 0 <= i < t.len() && #[trigger] t[i].id() == k;
                assert(s[i].id() == k);
            }
        }
        if exists|i: int| 0 <= i < s.len() && #[trigger] s[i].id() == k {
            let i = choose|i: int| 0 <= i < s.len() && #[trigger] s[i].id() == k;
            if i < s.len() - 1 {
                assert(t[i].id() == k);
            }
        }
    }
}

proof fn lemma_registry_at(s: Seq<Bucket>, i: int)
    requires
        distinct_keys(s),
        0 <= i < s.len(),
    ensures
        registry(s).contains_key(s[i].id()),
        registry(s)[s[i].id()] == s[i].state,
    decreases s.len(),
{
    if i < s.len() - 1 {
        let t = s.drop_last();
        lemma_distinct_prefix(s, s.len() - 1);
        assert(t =~= s.take(s.len() - 1));
        lemma_registry_at(t, i);
        assert(t[i] == s[i]);
        assert(s[s.len() - 1].id() != s[i].id());
    }
}

proof fn lemma_registry_push(s: Seq<Bucket>, b: Bucket)
    ensures
        registry(s.push(b)) == registry(s).insert(b.id(), b.state),
{
    assert(s.push(b).drop_last() =~= s);
}

proof fn lemma_registry_update(s: Seq<Bucket>, i: int, b: Bucket)
    requires
        distinct_keys(s),
        0 <= i < s.len(),
        b.id() == s[i].id(),
    ensures
        registry(s.update(i, b)) =~= registry(s).insert(b.id(), b.state),
        distinct_keys(s.update(i, b)),
    decreases s.len(),
{
    let u = s.update(i, b);
    assert forall|x: int, y: int|
        0 <= x < u.len() && 0 <= y < u.len() && x != y implies #[trigger] u[x].id() != #[trigger] u[y].id() by {
        assert(s[x].id() != s[y].id());
    }
    if i == s.len() - 1 {
        assert(u.drop_last() =~= s.drop_last());
    } else {
        let t = s.drop_last();
        lemma_distinct_prefix(s, s.len() - 1);
        assert(t =~= s.take(s.len() - 1));
        lemma_registry_update(t, i, b);
        assert(u.drop_last() =~= t.update(i, b));
        assert(s[s.len() - 1].id() != s[i].id());
    }
}

/// The admission-control engine: one bucket per policy name and entity key.
///
/// The limiter is an ordinary value; callers that share it between tasks
/// wrap it in a lock, which makes every check one atomic step.
///
/// Buckets are held in a vector and found by a linear scan, so a check
/// takes time linear in the number of buckets held; regular eviction keeps
/// that number near the count of callers seen within the horizon.
#[derive(Debug)]
pub struct Limiter {
    buckets: Vec<Bucket>,
    clock: MonotonicClock,
}

impl View for Limiter {
    type V = Map<BucketKey, BucketState>;

    closed spec fn view(&self) -> Map<BucketKey, BucketState> {
        registry(self.buckets@)
    }
}

impl Limiter {
    /// At most one bucket per key.
    pub closed spec fn wf(&self) -> bool {
        distinct_keys(self.buckets@)
    }

    /// The latest reading of the limiter's clock.
    pub closed spec fn clock_ms(&self) -> u64 {
        self.clock.latest_ms
    }

    pub fn new() -> (r: Limiter)
        ensures
            r.wf(),
            r@ == Map::<BucketKey, BucketState>::empty(),
            r.clock_ms() == 0,
    {
        Limiter { buckets: Vec::new(), clock: MonotonicClock::start() }
    }

    /// Reads the limiter's monotonic clock: never earlier than its last reading.
    pub fn now_ms(&mut self) -> (r: u64)
        requires
            old(self).wf(),
        ensures
            final(self).wf(),
            final(self)@ == old(self)@,
            r >= old(self).clock_ms(),
            final(self).clock_ms() == r,
    {
        self.clock.read()
    }

    /// The bucket of `entity_key` under the policy named `policy`, if held.
    pub fn state_of(&self, policy: &str, entity_key: &str) -> (r: Option<BucketState>)
        requires
            self.wf(),
        ensures
            r == (if self@.contains_key((policy@, entity_key@)) {
                Some(self@[(policy@, entity_key@)])
            } else {
                None::<BucketState>
            }),
    {
        let name = String::from_str(policy);
        let key = String::from_str(entity_key);
        let ghost k: BucketKey = (policy@, entity_key@);
        let n = self.buckets.len();
        let mut i: usize = 0;
        while i < n
            invariant
                n == self.buckets.len(),
                0 <= i <= n,
                self.wf(),
                name@ == policy@,
                key@ == entity_key@,
                k == (policy@, entity_key@),
                forall|j: int| 0 <= j < i ==> #[trigger] self.buckets@[j].id() != k,
            decreases n - i,
        {
            if self.buckets[i].name == name && self.buckets[i].key == key {
                proof {
                    lemma_registry_at(self.buckets@, i as int);
                }
                return Some(self.buckets[i].state);
            }
            i = i + 1;
        }
        proof {
            lemma_registry_has(self.buckets@, k);
        }
        None
    }

    /// Checks one request of `entity_key` under `config` at time `now_ms`,
    /// and counts it if it is admitted.
    pub fn check_and_increment_at(
        &mut self,
        config: &BucketConfig,
        entity_key: &str,
        now_ms: u64,
    ) -> (r: Result<Decision, LimitError>)
        requires
            old(self).wf(),
        ensures
            final(self).wf(),
            final(self).clock_ms() == old(self).clock_ms(),
            entity_key@.len() == 0 ==> r == Err::<Decision, LimitError>(LimitError::EmptyEntityKey)
                && final(self)@ == old(self)@,
            entity_key@.len() > 0 ==> r == Ok::<Decision, LimitError>(
                admit_step(old(self)@, *config, entity_key@, now_ms).1,
            ) && final(self)@ == admit_step(old(self)@, *config, entity_key@, now_ms).0,
    {
        if entity_key.is_empty() {
            return Err(LimitError::EmptyEntityKey);
        }
        proof {
            use_type_invariant(config);
        }
        let key = String::from_str(entity_key);
        let ghost k: BucketKey = (config.policy(), entity_key@);
        let limit = config.max_requests_per_cycle;
        let cycle = config.cycle_duration_ms;
        let n = self.buckets.len();
        let mut i: usize = 0;
        while i < n
            invariant
                n == self.buckets.len(),
                0 <= i <= n,
                self.wf(),
                self@ == old(self)@,
                self.clock == old(self).clock,
                key@ == entity_key@,
                entity_key@.len() > 0,
                k == (config.policy(), entity_key@),
                limit == config.limit(),
                cycle == config.cycle(),
                cycle > 0,
                limit > 0,
                forall|j: int| 0 <= j < i ==> #[trigger] self.buckets@[j].id() != k,
            decreases n - i,
        {
            if self.buckets[i].name == config.name && self.buckets[i].key == key {
                let st = self.buckets[i].state;
                proof {
                    assert(self.buckets@[i as int].id() == k);
                    lemma_registry_at(self.buckets@, i as int);
                }
                let cur = if now_ms >= st.cycle_start && now_ms - st.cycle_start >= cycle {
                    BucketState { count: 0, cycle_start: now_ms, cycle_ms: cycle, last_seen: now_ms }
                } else {
                    st
                };
                let admitted = cur.count < limit;
                let next = BucketState {
                    count: if admitted {
                        cur.count + 1
                    } else {
                        cur.count
                    },
                    cycle_start: cur.cycle_start,
                    cycle_ms: cycle,
                    last_seen: now_ms,
                };
                let ghost before = self.buckets@;
                self.buckets[i].state = next;
                proof {
                    assert(self.buckets@ == before.update(
                        i as int,
                        Bucket { name: before[i as int].name, key: before[i as int].key, state: next },
                    ));
                    lemma_registry_update(before, i as int, self.buckets@[i as int]);
                }
                if admitted {
                    return Ok(Decision::Admitted { remaining: limit - cur.count - 1 });
                } else {
                    let since = if now_ms >= cur.cycle_start {
                        now_ms - cur.cycle_start
                    } else {
                        0
                    };
                    return Ok(Decision::Rejected { retry_after_ms: cycle - since });
                }
            }
            i = i + 1;
        }
        proof {
            lemma_registry_has(self.buckets@, k);
        }
        let ghost before = self.buckets@;
        let fresh = Bucket {
            name: config.name.clone(),
            key,
            state: BucketState { count: 1, cycle_start: now_ms, cycle_ms: cycle, last_seen: now_ms },
        };
        self.buckets.push(fresh);
        proof {
            lemma_registry_push(before, fresh);
            assert forall|x: int, y: int|
                0 <= x < self.buckets@.len() && 0 <= y < self.buckets@.len() && x != y implies #[trigger] self.buckets@[x].id()
                != #[trigger] self.buckets@[y].id() by {
                if x < before.len() && y < before.len() {
                    assert(before[x].id() != before[y].id());
                }
            }
        }
        Ok(Decision::Admitted { remaining: limit - 1 })
    }

    /// Checks one request of `entity_key` under `config` against the
    /// limiter's own monotonic clock, and counts it if it is admitted.
    pub fn check_and_increment(&mut self, config: &BucketConfig, entity_key: &str) -> (r: Result<
        Decision,
        LimitError,
    >)
        requires
            old(self).wf(),
        ensures
            final(self).wf(),
            final(self).clock_ms() >= old(self).clock_ms(),
            entity_key@.len() == 0 ==> r == Err::<Decision, LimitError>(LimitError::EmptyEntityKey)
                && final(self)@ == old(self)@,
            entity_key@.len() > 0 ==> r == Ok::<Decision, LimitError>(
                admit_step(old(self)@, *config, entity_key@, final(self).clock_ms()).1,
            ) && final(self)@ == admit_step(old(self)@, *config, entity_key@, final(self).clock_ms()).0,
    {
        if entity_key.is_empty() {
            return Err(LimitError::EmptyEntityKey);
        }
        let now = self.clock.read();
        self.check_and_increment_at(config, entity_key, now)
    }

    /// Removes every bucket that is stale at `now_ms` (its cycle has run out
    /// and no request has met it for more than `older_than_ms`); the others
    /// stay as they were.
    pub fn evict_stale_at(&mut self, older_than_ms: u64, now_ms: u64)
        requires
            old(self).wf(),
        ensures
            final(self).wf(),
            final(self).clock_ms() == old(self).clock_ms(),
            forall|k: BucketKey| #[trigger]
                final(self)@.contains_key(k) <==> old(self)@.contains_key(k) && !is_stale(
                    old(self)@[k],
                    older_than_ms,
                    now_ms,
                ),
            forall|k: BucketKey| #[trigger]
                final(self)@.contains_key(k) ==> final(self)@[k] == old(self)@[k],
    {
        let mut rest: Vec<Bucket> = Vec::new();
        std::mem::swap(&mut self.buckets, &mut rest);
        let ghost orig = rest@;
        let mut kept: Vec<Bucket> = Vec::new();
        while rest.len() > 0
            invariant
                orig == old(self).buckets@,
                distinct_keys(orig),
                rest@ == orig.take(rest@.len() as int),
                rest@.len() <= orig.len(),
                distinct_keys(kept@),
                self.clock == old(self).clock,
                forall|k: BucketKey| #[trigger]
                    registry(kept@).contains_key(k) <==> exists|j: int|
                        rest@.len() <= j < orig.len() && #[trigger] orig[j].id() == k && !is_stale(
                            orig[j].state,
                            older_than_ms,
                            now_ms,
                        ),
                forall|j: int|
                    rest@.len() <= j < orig.len() && !is_stale(orig[j].state, older_than_ms, now_ms)
                        ==> #[trigger] registry(kept@)[orig[j].id()] == orig[j].state,
            decreases rest@.len(),
        {
            let ghost n = rest@.len() as int;
            let b = rest.pop().unwrap();
            proof {
                assert(b == orig[n - 1]);
                assert(rest@ =~= orig.take(n - 1));
            }
            let expired = now_ms >= b.state.cycle_start && now_ms - b.state.cycle_start
                >= b.state.cycle_ms;
            let idle = (b.state.last_seen as u128) + (older_than_ms as u128) < (now_ms as u128);
            proof {
                assert(is_stale(b.state, older_than_ms, now_ms) == (expired && idle));
            }
            if !(expired && idle) {
                let ghost before = kept@;
                proof {
                    lemma_registry_push(before, b);
                    assert(!registry(before).contains_key(b.id())) by {
                        if registry(before).contains_key(b.id()) {
                            let j = choose|j: int|
                                n <= j < orig.len() && #[trigger] orig[j].id() == b.id() && !is_stale(
                                    orig[j].state,
                                    older_than_ms,
                                    now_ms,
                                );
                            assert(orig[j].id() != orig[n - 1].id());
                        }
                    }
                    lemma_registry_has(before, b.id());
                }
                kept.push(b);
                proof {
                    assert forall|x: int, y: int|
                        0 <= x < kept@.len() && 0 <= y < kept@.len() && x != y implies #[trigger] kept@[x].id()
                        != #[trigger] kept@[y].id() by {
                        if x < before.len() && y < before.len() {
                            assert(before[x].id() != before[y].id());
                        } else if x < before.len() {
                            assert(before[x].id() != b.id());
                        } else if y < before.len() {
                            assert(before[y].id() != b.id());
                        }
                    }
                    assert forall|k: BucketKey| #[trigger]
                        registry(kept@).contains_key(k) <==> exists|j: int|
                            n - 1 <= j < orig.len() && #[trigger] orig[j].id() == k && !is_stale(
                                orig[j].state,
                                older_than_ms,
                                now_ms,
                            ) by {
                        if k == b.id() {
                            assert(orig[n - 1].id() == k);
                        }
                    }
                    assert forall|j: int|
                        n - 1 <= j < orig.len() && !is_stale(orig[j].state, older_than_ms, now_ms)
                            implies #[trigger] registry(kept@)[orig[j].id()] == orig[j].state by {
                        if j != n - 1 {
                            assert(orig[j].id() != orig[n - 1].id());
                        }
                    }
                }
            } else {
                proof {
                    assert forall|k: BucketKey| #[trigger]
                        registry(kept@).contains_key(k) <==> exists|j: int|
                            n - 1 <= j < orig.len() && #[trigger] orig[j].id() == k && !is_stale(
                                orig[j].state,
                                older_than_ms,
                                now_ms,
                            ) by {
                        if exists|j: int|
                            n - 1 <= j < orig.len() && #[trigger] orig[j].id() == k && !is_stale(
                                orig[j].state,
                                older_than_ms,
                                now_ms,
                            ) {
                            let j = choose|j: int|
                                n - 1 <= j < orig.len() && #[trigger] orig[j].id() == k && !is_stale(
                                    orig[j].state,
                                    older_than_ms,
                                    now_ms,
                                );
                            assert(j != n - 1);
                        }
                    }
                }
            }
        }
        proof {
            assert forall|k: BucketKey| #[trigger]
                registry(kept@).contains_key(k) <==> registry(orig).contains_key(k) && !is_stale(
                    registry(orig)[k],
                    older_than_ms,
                    now_ms,
                ) by {
                lemma_registry_has(orig, k);
                if registry(orig).contains_key(k) {
                    let j = choose|j: int| 0 <= j < orig.len() && #[trigger] orig[j].id() == k;
                    lemma_registry_at(orig, j);
                }
                if registry(kept@).contains_key(k) {
                    let j = choose|j: int|
                        0 <= j < orig.len() && #[trigger] orig[j].id() == k && !is_stale(
                            orig[j].state,
                            older_than_ms,
                            now_ms,
                        );
                    lemma_registry_at(orig, j);
                }
            }
            assert forall|k: BucketKey| #[trigger]
                registry(kept@).contains_key(k) implies registry(kept@)[k] == registry(orig)[k] by {
                let j = choose|j: int|
                    0 <= j < orig.len() && #[trigger] orig[j].id() == k && !is_stale(
                        orig[j].state,
                        older_than_ms,
                        now_ms,
                    );
                lemma_registry_at(orig, j);
            }
        }
        self.buckets = kept;
    }

    /// Removes every bucket that is stale at the limiter's current clock
    /// reading, for a horizon of `older_than_ms`.
    pub fn evict_stale(&mut self, older_than_ms: u64)
        requires
            old(self).wf(),
        ensures
            final(self).wf(),
            final(self).clock_ms() >= old(self).clock_ms(),
            forall|k: BucketKey| #[trigger]
                final(self)@.contains_key(k) <==> old(self)@.contains_key(k) && !is_stale(
                    old(self)@[k],
                    older_than_ms,
                    final(self).clock_ms(),
                ),
            forall|k: BucketKey| #[trigger]
                final(self)@.contains_key(k) ==> final(self)@[k] == old(self)@[k],
    {
        let now = self.clock.read();
        self.evict_stale_at(older_than_ms, now);
    }
}

} // verus!
