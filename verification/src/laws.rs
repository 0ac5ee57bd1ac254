//! The engine's general guarantees, stated and proved over the same
//! spec functions its contracts use.

use vstd::prelude::*;
use crate::engine::spec_route_ok;
use crate::metrics::{can_record, spec_bump, spec_record, RouteMetrics};
use crate::policy::spec_selected;
use crate::table::spec_register;

verus! {

/// The sum of a sequence of samples.
pub open spec fn sum_of(s: Seq<int>) -> int
    decreases s.len(),
{
    if s.len() == 0 {
        0
    } else {
        sum_of(s.drop_last()) + s.last()
    }
}

/// The average the metrics store holds after folding in each sample of
/// `s` in turn: the integer mean recomputed on every sample as
/// `(avg * (n - 1) + sample) / n`.
pub open spec fn running_avg(s: Seq<int>) -> int
    decreases s.len(),
{
    if s.len() == 0 {
        0
    } else {
        (running_avg(s.drop_last()) * (s.len() - 1) + s.last()) / (s.len() as int)
    }
}

/// The running average of samples within `[0, bound]` stays within
/// `[0, bound]`.
pub proof fn lemma_running_avg_bounds(s: Seq<int>, bound: int)
    requires
        bound >= 0,
        forall|i: int| 0 <= i < s.len() ==> 0 <= #[trigger] s[i] <= bound,
    ensures
        0 <= running_avg(s) <= bound,
    decreases s.len(),
{
    if s.len() == 0 {
    } else {
        lemma_running_avg_bounds(s.drop_last(), bound);
        let a = running_avg(s.drop_last());
        let n = s.len() as int;
        let l = s.last();
        assert(0 <= l <= bound);
        assert(0 <= (a * (n - 1) + l) / n <= bound) by (nonlinear_arith)
            requires
                0 <= a <= bound,
                0 <= l <= bound,
                1 <= n,
        ;
    }
}

/// After `N` attempts with latencies `L1..LN`, the stored average is the
/// exact integer-truncated arithmetic mean of `L1..LN`, provided every
/// proper prefix of the samples averages without a remainder (the
/// running recomputation loses nothing to truncation then).
pub proof fn lemma_running_avg_exact_mean(s: Seq<int>)
    requires
        s.len() > 0,
        forall|i: int| 0 <= i < s.len() ==> 0 <= #[trigger] s[i],
        forall|k: int| 1 <= k < s.len() ==> #[trigger] sum_of(s.take(k)) % k == 0,
    ensures
        running_avg(s) == sum_of(s) / (s.len() as int),
    decreases s.len(),
{
    let n = s.len() as int;
    if n == 1 {
        assert(s.drop_last().len() == 0);
        reveal_with_fuel(sum_of, 2);
        reveal_with_fuel(running_avg, 2);
        assert(running_avg(s) == s.last() / 1);
        assert(sum_of(s) == s.last());
        assert(s.last() / 1 == s.last()) by (nonlinear_arith);
    } else {
        let p = s.drop_last();
        assert forall|k: int| 1 <= k < p.len() implies #[trigger] sum_of(p.take(k)) % k == 0 by {
            assert(p.take(k) =~= s.take(k));
        }
        lemma_running_avg_exact_mean(p);
        let q = running_avg(p);
        assert(s.take(n - 1) =~= p);
        assert(sum_of(p) % (n - 1) == 0);
        assert(q * (n - 1) == sum_of(p)) by (nonlinear_arith)
            requires
                q == sum_of(p) / (n - 1),
                sum_of(p) % (n - 1) == 0,
                n - 1 >= 1,
        ;
        assert(running_avg(s) == (q * (n - 1) + s.last()) / n);
        assert(sum_of(s) == sum_of(p) + s.last());
        assert(q * (n - 1) + s.last() == sum_of(s));
        assert(running_avg(s) == sum_of(s) / n);
    }
}

/// One recorded attempt extends the sample history: counters that
/// reflect the samples `lats` come to reflect `lats.push(lat)` — the
/// request count grows to `N + 1` and the average is the running mean
/// over the longer history.
pub proof fn lemma_bump_extends_history(m: RouteMetrics, lats: Seq<int>, succeeded: bool, lat: u64)
    requires
        m.total_requests == lats.len(),
        lats.len() < u64::MAX,
        forall|i: int| 0 <= i < lats.len() ==> 0 <= #[trigger] lats[i] <= u64::MAX,
        m.avg_latency_us == running_avg(lats),
    ensures
        spec_bump(m, succeeded, lat).total_requests == lats.len() + 1,
        spec_bump(m, succeeded, lat).avg_latency_us == running_avg(lats.push(lat as int)),
{
    lemma_running_avg_bounds(lats, u64::MAX as int);
    let s2 = lats.push(lat as int);
    assert(s2.drop_last() =~= lats);
    let a = running_avg(lats);
    let n = lats.len() as int;
    let l = lat as int;
    assert(running_avg(s2) == (a * n + l) / (n + 1));
    assert(0 <= (a * n + l) / (n + 1) <= u64::MAX) by (nonlinear_arith)
        requires
            0 <= a <= u64::MAX,
            0 <= l <= u64::MAX,
            0 <= n,
    ;
}

/// Registration only appends: the registered target's list is never
/// empty afterwards, holds everything it held before in the same order,
/// and no other target's list moves.
pub proof fn lemma_registration_only_appends(
    routes: Map<Seq<char>, Seq<Seq<char>>>,
    target: Seq<char>,
    adapter_id: Seq<char>,
)
    ensures
        ({
            let after = spec_register(routes, target, adapter_id);
            &&& after.contains_key(target)
            &&& after[target].len() > 0
            &&& after[target].last() == adapter_id
            &&& routes.contains_key(target) ==> after[target].drop_last() == routes[target]
            &&& forall|t: Seq<char>|
                t != target ==> (after.contains_key(t) <==> routes.contains_key(t))
            &&& forall|t: Seq<char>|
                t != target && routes.contains_key(t) ==> after[t] == routes[t]
        }),
{
    let after = spec_register(routes, target, adapter_id);
    if routes.contains_key(target) {
        assert(after[target].drop_last() =~= routes[target]);
    }
}

/// After registering `adapter_id` for a target that had no adapters,
/// routing resolves that target and the default policy selects exactly
/// that adapter.
pub proof fn lemma_first_registration_selected(
    routes: Map<Seq<char>, Seq<Seq<char>>>,
    target: Seq<char>,
    adapter_id: Seq<char>,
)
    requires
        !routes.contains_key(target) || routes[target].len() == 0,
    ensures
        ({
            let after = spec_register(routes, target, adapter_id);
            &&& spec_route_ok(after, target)
            &&& spec_selected(after[target]) == adapter_id
        }),
{
}

/// Registration order is kept and selection is stateless: after
/// registering `a1` then `a2` for a fresh target, the candidate list is
/// exactly `[a1, a2]` and the default policy selects `a1`. Routing never
/// changes the table, so it selects `a1` however often it runs.
pub proof fn lemma_registration_order_kept(
    routes: Map<Seq<char>, Seq<Seq<char>>>,
    target: Seq<char>,
    a1: Seq<char>,
    a2: Seq<char>,
)
    requires
        !routes.contains_key(target),
    ensures
        ({
            let after = spec_register(spec_register(routes, target, a1), target, a2);
            &&& spec_route_ok(after, target)
            &&& after[target] == seq![a1, a2]
            &&& spec_selected(after[target]) == a1
        }),
{
    assert(Seq::<Seq<char>>::empty().push(a1).push(a2) =~= seq![a1, a2]);
}

/// No metrics update is lost or double counted: recording one attempt
/// raises the chosen adapter's request counter by exactly one and leaves
/// every other adapter's counters exactly as they were.
pub proof fn lemma_record_exact_counting(
    m: Map<Seq<char>, RouteMetrics>,
    adapter_id: Seq<char>,
    succeeded: bool,
    latency_us: u64,
)
    requires
        can_record(m, adapter_id),
    ensures
        ({
            let after = spec_record(m, adapter_id, succeeded, latency_us);
            &&& after.contains_key(adapter_id)
            &&& after[adapter_id].total_requests == (if m.contains_key(adapter_id) {
                m[adapter_id].total_requests + 1
            } else {
                1
            })
            &&& forall|b: Seq<char>|
                b != adapter_id ==> (after.contains_key(b) <==> m.contains_key(b))
            &&& forall|b: Seq<char>| b != adapter_id && m.contains_key(b) ==> after[b] == m[b]
        }),
{
}

} // verus!
