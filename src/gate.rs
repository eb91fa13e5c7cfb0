//! Admission of one request ahead of its handler: the caller's entity key,
//! one check per applicable policy, and a single verdict from the answers.
use vstd::prelude::*;

use crate::limiter::{admit_step, BucketConfig, BucketKey, BucketState, Decision, LimitEntityType, Limiter};

verus! {

/// Optional whitespace of an HTTP header value.
pub open spec fn is_ows(c: char) -> bool {
    c == ' ' || c == '\t'
}

/// The first index at or after `i` that holds a comma, or the length.
pub open spec fn comma_from(s: Seq<char>, i: int) -> int
    decreases s.len() - i,
{
    if i < 0 || i >= s.len() || s[i] == ',' {
        i
    } else {
        comma_from(s, i + 1)
    }
}

/// The first index in `[i, end)` that holds no whitespace, or `end`.
pub open spec fn skip_ows_from(s: Seq<char>, i: int, end: int) -> int
    decreases end - i,
{
    if i < 0 || i >= end || i >= s.len() || !is_ows(s[i]) {
        i
    } else {
        skip_ows_from(s, i + 1, end)
    }
}

/// The end of `[start, j)` once trailing whitespace is dropped.
pub open spec fn drop_ows_until(s: Seq<char>, start: int, j: int) -> int
    decreases j,
{
    if j <= start || j <= 0 || j > s.len() || !is_ows(s[j - 1]) {
        j
    } else {
        drop_ows_until(s, start, j - 1)
    }
}

/// The first entry of a forwarded-for list, without surrounding whitespace:
/// the client as the outermost trusted proxy saw it.
pub open spec fn first_hop(h: Seq<char>) -> Seq<char> {
    let c = comma_from(h, 0);
    let a = skip_ows_from(h, 0, c);
    h.subrange(a, drop_ows_until(h, a, c))
}

/// The key that stands for a caller when no address can be found.
pub open spec fn unknown_caller() -> Seq<char> {
    seq!['u', 'n', 'k', 'n', 'o', 'w', 'n']
}

/// The entity key of a request: the forwarded client address when the proxy
/// header is ASCII and its first entry is not blank, else the peer address
/// when it is not empty, else the fallback key.
pub open spec fn entity_key_of(
    limit_by: LimitEntityType,
    forwarded_for: Option<Seq<char>>,
    peer: Option<Seq<char>>,
) -> Seq<char> {
    match limit_by {
        LimitEntityType::ProxiedIP => {
            if forwarded_for is Some && vstd::utf8::is_ascii_chars(forwarded_for->0) && first_hop(
                forwarded_for->0,
            ).len() > 0 {
                first_hop(forwarded_for->0)
            } else if peer is Some && peer->0.len() > 0 {
                peer->0
            } else {
                unknown_caller()
            }
        },
    }
}

/// The text of an optional string.
pub open spec fn view_of(s: Option<&str>) -> Option<Seq<char>> {
    match s {
        Some(x) => Some(x@),
        None => None,
    }
}

/// The first hop of an ASCII forwarded-for header value.
fn first_hop_of(h: &str) -> (r: String)
    requires
        h.is_ascii(),
    ensures
        r@ == first_hop(h@),
{
    let n = h.unicode_len();
    let mut c: usize = 0;
    while c < n && h.get_ascii(c) != 44u8
        invariant
            n == h@.len(),
            h.is_ascii(),
            0 <= c <= n,
            comma_from(h@, c as int) == comma_from(h@, 0),
        decreases n - c,
    {
        proof {
            assert(h@[c as int] != ',');
        }
        c = c + 1;
    }
    let mut a: usize = 0;
    while a < c && (h.get_ascii(a) == 32u8 || h.get_ascii(a) == 9u8)
        invariant
            n == h@.len(),
            h.is_ascii(),
            0 <= a <= c <= n,
            c == comma_from(h@, 0),
            skip_ows_from(h@, a as int, c as int) == skip_ows_from(h@, 0, c as int),
        decreases c - a,
    {
        a = a + 1;
    }
    proof {
        if a < c {
            assert(!is_ows(h@[a as int]));
        }
    }
    let mut b: usize = c;
    while b > a && (h.get_ascii(b - 1) == 32u8 || h.get_ascii(b - 1) == 9u8)
        invariant
            n == h@.len(),
            h.is_ascii(),
            0 <= a <= b <= c <= n,
            c == comma_from(h@, 0),
            a == skip_ows_from(h@, 0, c as int),
            drop_ows_until(h@, a as int, b as int) == drop_ows_until(h@, a as int, c as int),
        decreases b,
    {
        b = b - 1;
    }
    proof {
        if b > a {
            assert(!is_ows(h@[b - 1]));
        }
    }
    String::from_str(h.substring_ascii(a, b))
}

/// The entity key of a request under `limit_by`, from the forwarded-for
/// header value and the peer address when they are known.
pub fn entity_key_for(limit_by: LimitEntityType, forwarded_for: Option<&str>, peer: Option<&str>) -> (r:
    String)
    ensures
        r@ == entity_key_of(limit_by, view_of(forwarded_for), view_of(peer)),
        r@.len() > 0,
{
    match limit_by {
        LimitEntityType::ProxiedIP => {
            if let Some(h) = forwarded_for {
                if h.is_ascii() {
                    let hop = first_hop_of(h);
                    if hop.as_str().unicode_len() > 0 {
                        return hop;
                    }
                }
            }
            if let Some(p) = peer {
                if !p.is_empty() {
                    return String::from_str(p);
                }
            }
            let r = String::from_str("unknown");
            proof {
                reveal_strlit("unknown");
                assert(r@ =~= unknown_caller());
            }
            r
        },
    }
}

/// Two decisions taken together: admitted only if both admit, with the
/// smaller `remaining`; if both reject, the longer wait.
pub open spec fn combine(a: Decision, b: Decision) -> Decision {
    match (a, b) {
        (Decision::Admitted { remaining: x }, Decision::Admitted { remaining: y }) => {
            Decision::Admitted {
                remaining: if x <= y {
                    x
                } else {
                    y
                },
            }
        },
        (Decision::Rejected { retry_after_ms: x }, Decision::Rejected { retry_after_ms: y }) => {
            Decision::Rejected {
                retry_after_ms: if x >= y {
                    x
                } else {
                    y
                },
            }
        },
        (Decision::Rejected { .. }, _) => a,
        (_, Decision::Rejected { .. }) => b,
    }
}

/// The verdict of a sequence of decisions; none when there are no policies.
pub open spec fn verdict(ds: Seq<Decision>) -> Option<Decision>
    decreases ds.len(),
{
    if ds.len() == 0 {
        None
    } else {
        match verdict(ds.drop_last()) {
            None => Some(ds.last()),
            Some(v) => Some(combine(v, ds.last())),
        }
    }
}

/// Conjunctive admission: the verdict of a non-empty sequence of decisions
/// admits exactly when every decision admits, and then reports the least
/// `remaining`; otherwise it rejects with the longest wait of any rejection.
pub proof fn lemma_verdict_is_conjunctive(ds: Seq<Decision>)
    requires
        ds.len() > 0,
    ensures
        verdict(ds) is Some,
        verdict(ds)->0 is Admitted <==> forall|i: int| 0 <= i < ds.len() ==> #[trigger] ds[i] is Admitted,
        verdict(ds)->0 matches Decision::Admitted { remaining } ==> (forall|i: int|
            0 <= i < ds.len() ==> remaining <= #[trigger] ds[i]->remaining) && exists|i: int|
            0 <= i < ds.len() && #[trigger] ds[i]->remaining == remaining,
        verdict(ds)->0 matches Decision::Rejected { retry_after_ms } ==> (forall|i: int|
            0 <= i < ds.len() && ds[i] is Rejected ==> #[trigger] ds[i]->retry_after_ms
            <= retry_after_ms) && exists|i: int|
            0 <= i < ds.len() && ds[i] is Rejected && #[trigger] ds[i]->retry_after_ms
                == retry_after_ms,
    decreases ds.len(),
{
    let t = ds.drop_last();
    let n = ds.len() - 1;
    let last = ds[n];
    assert(ds.last() == last);
    if t.len() == 0 {
        assert(verdict(t) is None);
        assert(ds[0] == last);
        if last is Admitted {
            assert(ds[0]->remaining == last->remaining);
        } else {
            assert(ds[0]->retry_after_ms == last->retry_after_ms);
        }
    } else {
        lemma_verdict_is_conjunctive(t);
        assert forall|i: int| 0 <= i < t.len() implies #[trigger] t[i] == ds[i] by {}
        let v = verdict(t)->0;
        match (v, last) {
            (Decision::Admitted { remaining: x }, Decision::Admitted { remaining: y }) => {
                let j = choose|j: int| 0 <= j < t.len() && #[trigger] t[j]->remaining == x;
                assert(ds[j] == t[j]);
                assert forall|i: int| 0 <= i < ds.len() implies #[trigger] ds[i] is Admitted by {
                    if i < t.len() {
                        assert(t[i] is Admitted);
                    }
                }
                let m = if x <= y { x } else { y };
                assert forall|i: int| 0 <= i < ds.len() implies m <= #[trigger] ds[i]->remaining by {
                    if i < t.len() {
                        assert(t[i] == ds[i]);
                    }
                }
                if x <= y {
                    assert(ds[j]->remaining == x);
                } else {
                    assert(ds[n]->remaining == y);
                }
            },
            (Decision::Rejected { retry_after_ms: x }, Decision::Rejected { retry_after_ms: y }) => {
                let j = choose|j: int|
                    0 <= j < t.len() && t[j] is Rejected && #[trigger] t[j]->retry_after_ms == x;
                assert(ds[j] == t[j]);
                let m = if x >= y { x } else { y };
                assert forall|i: int| 0 <= i < ds.len() && ds[i] is Rejected implies #[trigger] ds[i]->retry_after_ms <= m by {
                    if i < t.len() {
                        assert(t[i] == ds[i]);
                    }
                }
                if x >= y {
                    assert(ds[j]->retry_after_ms == x);
                } else {
                    assert(ds[n]->retry_after_ms == y);
                }
            },
            (Decision::Rejected { retry_after_ms: x }, _) => {
                let j = choose|j: int|
                    0 <= j < t.len() && t[j] is Rejected && #[trigger] t[j]->retry_after_ms == x;
                assert(ds[j] == t[j]);
                assert(!(ds[j] is Admitted));
                assert forall|i: int| 0 <= i < ds.len() && ds[i] is Rejected implies #[trigger] ds[i]->retry_after_ms <= x by {
                    if i < t.len() {
                        assert(t[i] == ds[i]);
                    }
                }
            },
            (_, Decision::Rejected { retry_after_ms: y }) => {
                assert(ds[n]->retry_after_ms == y);
                assert(v is Admitted);
                assert forall|i: int| 0 <= i < t.len() implies #[trigger] ds[i] is Admitted by {
                    assert(t[i] is Admitted);
                }
                assert forall|i: int| 0 <= i < ds.len() && ds[i] is Rejected implies #[trigger] ds[i]->retry_after_ms <= y by {
                    if i < t.len() {
                        assert(ds[i] is Admitted);
                    }
                }
            },
        }
    }
}

/// The registry and decisions after one request is checked under each
/// policy of `configs` in turn, each with the entity key that its dimension
/// gives.
pub open spec fn gate_steps(
    reg: Map<BucketKey, BucketState>,
    configs: Seq<BucketConfig>,
    forwarded_for: Option<Seq<char>>,
    peer: Option<Seq<char>>,
    now: u64,
) -> (Map<BucketKey, BucketState>, Seq<Decision>)
    decreases configs.len(),
{
    if configs.len() == 0 {
        (reg, Seq::empty())
    } else {
        let prev = gate_steps(reg, configs.drop_last(), forwarded_for, peer, now);
        let c = configs.last();
        let next = admit_step(
            prev.0,
            c,
            entity_key_of(c.dimension(), forwarded_for, peer),
            now,
        );
        (next.0, prev.1.push(next.1))
    }
}

/// Checks one request at `now_ms` under every policy of `configs`; each
/// policy is asked, and its admission counted, whatever the others decide.
pub fn gate_at(
    limiter: &mut Limiter,
    configs: &Vec<BucketConfig>,
    forwarded_for: Option<&str>,
    peer: Option<&str>,
    now_ms: u64,
) -> (r: Option<Decision>)
    requires
        old(limiter).wf(),
    ensures
        final(limiter).wf(),
        final(limiter).clock_ms() == old(limiter).clock_ms(),
        final(limiter)@ == gate_steps(
            old(limiter)@,
            configs@,
            view_of(forwarded_for),
            view_of(peer),
            now_ms,
        ).0,
        r == verdict(gate_steps(old(limiter)@, configs@, view_of(forwarded_for), view_of(peer), now_ms).1),
{
    let ghost fwd = view_of(forwarded_for);
    let ghost pr = view_of(peer);
    let mut acc: Option<Decision> = None;
    let mut i: usize = 0;
    while i < configs.len()
        invariant
            0 <= i <= configs@.len(),
            fwd == view_of(forwarded_for),
            pr == view_of(peer),
            limiter.wf(),
            limiter.clock_ms() == old(limiter).clock_ms(),
            limiter@ == gate_steps(old(limiter)@, configs@.take(i as int), fwd, pr, now_ms).0,
            acc == verdict(gate_steps(old(limiter)@, configs@.take(i as int), fwd, pr, now_ms).1),
        decreases configs@.len() - i,
    {
        let c = &configs[i];
        let key = entity_key_for(c.limit_by(), forwarded_for, peer);
        let key_str = key.as_str();
        let res = limiter.check_and_increment_at(c, key_str, now_ms);
        let ghost prev = gate_steps(old(limiter)@, configs@.take(i as int), fwd, pr, now_ms);
        proof {
            assert(configs@.take(i + 1).drop_last() =~= configs@.take(i as int));
            assert(configs@.take(i + 1).last() == configs@[i as int]);
            let step = admit_step(prev.0, configs@[i as int], key@, now_ms);
            assert(prev.1.push(step.1).drop_last() =~= prev.1);
        }
        proof {
            let step = admit_step(prev.0, configs@[i as int], key@, now_ms);
            assert(gate_steps(old(limiter)@, configs@.take(i + 1), fwd, pr, now_ms).0 == step.0);
        }
        if let Ok(d) = res {
            acc = match acc {
                None => Some(d),
                Some(v) => Some(
                    match (v, d) {
                        (Decision::Admitted { remaining: x }, Decision::Admitted { remaining: y }) => {
                            Decision::Admitted {
                                remaining: if x <= y {
                                    x
                                } else {
                                    y
                                },
                            }
                        },
                        (
                            Decision::Rejected { retry_after_ms: x },
                            Decision::Rejected { retry_after_ms: y },
                        ) => {
                            Decision::Rejected {
                                retry_after_ms: if x >= y {
                                    x
                                } else {
                                    y
                                },
                            }
                        },
                        (Decision::Rejected { .. }, _) => v,
                        (_, Decision::Rejected { .. }) => d,
                    },
                ),
            };
        }
        i = i + 1;
    }
    proof {
        assert(configs@.take(configs@.len() as int) =~= configs@);
    }
    acc
}

/// The error a caller gets when any policy refuses its request.
#[derive(Debug)]
pub struct RateLimitError {
    /// A human-readable explanation.
    pub message: String,
    /// How long the caller should wait before trying again.
    pub retry_after_ms: u64,
}

impl RateLimitError {
    /// The machine-readable kind of this error.
    pub fn kind(&self) -> (r: &'static str)
        ensures
            r@ == rate_limited_kind(),
    {
        let r = "rate_limited";
        proof {
            reveal_strlit("rate_limited");
        }
        r
    }
}

/// The human-readable message of a rate-limit refusal.
pub open spec fn rate_limited_message() -> Seq<char> {
    "Too many requests."@
}

/// The machine-readable kind of a rate-limit refusal.
pub open spec fn rate_limited_kind() -> Seq<char> {
    seq!['r', 'a', 't', 'e', '_', 'l', 'i', 'm', 'i', 't', 'e', 'd']
}

/// What a gate verdict means for the request: `Ok` lets it through, with the
/// smallest `remaining` over the policies if there were any; `Err` stops it.
pub open spec fn outcome_matches(v: Option<Decision>, r: Result<Option<u64>, RateLimitError>) -> bool {
    match v {
        None => r == Ok::<Option<u64>, RateLimitError>(None),
        Some(Decision::Admitted { remaining }) => r == Ok::<Option<u64>, RateLimitError>(
            Some(remaining),
        ),
        Some(Decision::Rejected { retry_after_ms }) => r matches Err(e) && e.retry_after_ms
            == retry_after_ms && e.message@ == rate_limited_message(),
    }
}

/// Gates one request against every policy of `configs`, at the limiter's
/// current clock reading.
pub fn gate(
    limiter: &mut Limiter,
    configs: &Vec<BucketConfig>,
    forwarded_for: Option<&str>,
    peer: Option<&str>,
) -> (r: Result<Option<u64>, RateLimitError>)
    requires
        old(limiter).wf(),
    ensures
        final(limiter).wf(),
        final(limiter).clock_ms() >= old(limiter).clock_ms(),
        final(limiter)@ == gate_steps(
            old(limiter)@,
            configs@,
            view_of(forwarded_for),
            view_of(peer),
            final(limiter).clock_ms(),
        ).0,
        outcome_matches(
            verdict(
                gate_steps(
                    old(limiter)@,
                    configs@,
                    view_of(forwarded_for),
                    view_of(peer),
                    final(limiter).clock_ms(),
                ).1,
            ),
            r,
        ),
{
    let now = limiter.now_ms();
    match gate_at(limiter, configs, forwarded_for, peer, now) {
        None => Ok(None),
        Some(Decision::Admitted { remaining }) => Ok(Some(remaining)),
        Some(Decision::Rejected { retry_after_ms }) => Err(
            RateLimitError { message: String::from_str("Too many requests."), retry_after_ms },
        ),
    }
}

} // verus!
