//! The allocation optimizer: split incremental capital into equal chunks and
//! greedily assign each chunk to the strategy with the highest marginal APR,
//! respecting capacity limits.

use vstd::prelude::*;
use crate::wide::{Wide, wide_val, wide_bound, wide_lt, wide_le, wide_add, wide_sub, wide_mul,
    wide_div, wv, wb};
use crate::model::{CurveParams, StrategyCaps, Position, StrategyId, ArithmeticError, SignedDelta,
    delta_val};
use crate::apr::{apr_ok, apr_val, apr_after_debt_change};

verus! {

/// The optimizer's result: the target allocation, ordered withdrawals first,
/// and a diagnostic flag set when some chunk found no strategy with a
/// positive marginal APR and fell back to strategy 0.
pub struct AllocationPlan {
    pub positions: Vec<Position>,
    pub no_apr_fallback: bool,
}

/// The working debt vector a position list starts from.
pub open spec fn initial_debts(initial: Seq<Position>) -> Seq<int> {
    initial.map_values(|q: Position| wv(q.debt))
}

/// The amount each chunk deposits: the incremental capital split evenly,
/// truncating.
pub open spec fn deposit_unit(ti: int, ta: int, c: int) -> int {
    (ta - ti) / c
}

/// The integer-division leftover, absorbed into strategy 0 on the final
/// chunk.
pub open spec fn chunk_remainder(ti: int, ta: int, c: int) -> int {
    (ta - ti) - deposit_unit(ti, ta, c) * (c - 1)
}

/// The debt change strategy `j` would see if this chunk went to it.
pub open spec fn cand_delta(debts: Seq<int>, unit: int, caps: Seq<StrategyCaps>, j: int) -> int {
    debts[j] + unit - wv(caps[j].current_debt)
}

/// Whether strategy `j` can take this chunk without exceeding its cap.
pub open spec fn cand_feasible(debts: Seq<int>, unit: int, caps: Seq<StrategyCaps>, j: int) -> bool {
    debts[j] + unit <= wv(caps[j].max_debt)
}

/// The marginal APR of giving this chunk to strategy `j`.
pub open spec fn cand_apr(
    debts: Seq<int>,
    unit: int,
    curves: Seq<CurveParams>,
    caps: Seq<StrategyCaps>,
    j: int,
) -> int {
    apr_val(curves[j], cand_delta(debts, unit, caps, j))
}

/// The greedy scan over strategies `0..k`: the greatest marginal APR of a
/// feasible strategy seen so far and the earliest strategy attaining it,
/// starting from `(0, 0)`. Only a strictly greater APR moves the choice.
pub open spec fn scan_best(
    debts: Seq<int>,
    unit: int,
    curves: Seq<CurveParams>,
    caps: Seq<StrategyCaps>,
    k: nat,
) -> (int, int)
    decreases k,
{
    if k == 0 {
        (0int, 0int)
    } else {
        let prev = scan_best(debts, unit, curves, caps, (k - 1) as nat);
        let j = k - 1;
        if cand_feasible(debts, unit, caps, j) && cand_apr(debts, unit, curves, caps, j)
            > prev.0 {
            (cand_apr(debts, unit, curves, caps, j), j)
        } else {
            prev
        }
    }
}

/// What the scan needs to run without an arithmetic failure: every
/// tentative debt fits 256 bits, and every feasible candidate's APR
/// evaluates and fits 64 bits.
pub open spec fn scan_ok(
    debts: Seq<int>,
    unit: int,
    curves: Seq<CurveParams>,
    caps: Seq<StrategyCaps>,
    n: nat,
) -> bool {
    &&& forall|j: int| 0 <= j < n ==> #[trigger] debts[j] + unit < wb()
    &&& forall|j: int| 0 <= j < n && #[trigger] cand_feasible(debts, unit, caps, j) ==> {
        &&& apr_ok(curves[j], cand_delta(debts, unit, caps, j))
        &&& cand_apr(debts, unit, curves, caps, j) <= u64::MAX
    }
}

/// The working debts a chunk is evaluated against: on the final chunk the
/// division leftover is first added to strategy 0.
pub open spec fn chunk_base(debts: Seq<int>, i: int, c: int, ti: int, ta: int) -> Seq<int> {
    if i == c - 1 {
        debts.update(0, debts[0] + chunk_remainder(ti, ta, c))
    } else {
        debts
    }
}

/// The working debts after chunk `i`: the deposit unit is added to the
/// strategy the scan chose.
pub open spec fn chunk_result(
    debts: Seq<int>,
    i: int,
    c: int,
    ti: int,
    ta: int,
    curves: Seq<CurveParams>,
    caps: Seq<StrategyCaps>,
) -> Seq<int> {
    let base = chunk_base(debts, i, c, ti, ta);
    let unit = deposit_unit(ti, ta, c);
    let best = scan_best(base, unit, curves, caps, base.len());
    base.update(best.1, base[best.1] + unit)
}

/// What chunk `i` needs to run without an arithmetic failure.
pub open spec fn chunk_ok(
    debts: Seq<int>,
    i: int,
    c: int,
    ti: int,
    ta: int,
    curves: Seq<CurveParams>,
    caps: Seq<StrategyCaps>,
) -> bool {
    &&& (i == c - 1 ==> debts[0] + chunk_remainder(ti, ta, c) < wb())
    &&& scan_ok(
        chunk_base(debts, i, c, ti, ta),
        deposit_unit(ti, ta, c),
        curves,
        caps,
        chunk_base(debts, i, c, ti, ta).len(),
    )
}

/// Whether the scan of chunk `i` ended with no positive APR, so the chunk
/// fell back to strategy 0.
pub open spec fn chunk_no_apr(
    init: Seq<int>,
    i: int,
    c: int,
    ti: int,
    ta: int,
    curves: Seq<CurveParams>,
    caps: Seq<StrategyCaps>,
) -> bool {
    let base = chunk_base(debts_after(init, i, c, ti, ta, curves, caps), i, c, ti, ta);
    scan_best(base, deposit_unit(ti, ta, c), curves, caps, base.len()).0 == 0
}

/// The working debts after the first `i` chunks.
pub open spec fn debts_after(
    init: Seq<int>,
    i: int,
    c: int,
    ti: int,
    ta: int,
    curves: Seq<CurveParams>,
    caps: Seq<StrategyCaps>,
) -> Seq<int>
    decreases i,
{
    if i <= 0 {
        init
    } else {
        chunk_result(debts_after(init, i - 1, c, ti, ta, curves, caps), i - 1, c, ti, ta, curves,
            caps)
    }
}

/// Every chunk runs without an arithmetic failure.
pub open spec fn chunks_ok(
    init: Seq<int>,
    c: int,
    ti: int,
    ta: int,
    curves: Seq<CurveParams>,
    caps: Seq<StrategyCaps>,
) -> bool {
    forall|i: int| 0 <= i < c ==> #[trigger] chunk_ok(
        debts_after(init, i, c, ti, ta, curves, caps),
        i,
        c,
        ti,
        ta,
        curves,
        caps,
    )
}

/// Some chunk fell back for want of a positive APR.
pub open spec fn any_no_apr(
    init: Seq<int>,
    c: int,
    ti: int,
    ta: int,
    curves: Seq<CurveParams>,
    caps: Seq<StrategyCaps>,
) -> bool {
    exists|i: int| 0 <= i < c && #[trigger] chunk_no_apr(init, i, c, ti, ta, curves, caps)
}

/// A position reduced to its mathematical content.
pub open spec fn pos_model(q: Position) -> (StrategyId, int) {
    (q.strategy, wv(q.debt))
}

/// A position list reduced to its mathematical content.
pub open spec fn plan_models(ps: Seq<Position>) -> Seq<(StrategyId, int)> {
    ps.map_values(|q: Position| pos_model(q))
}

/// The strategies (from the first `k`) whose final debt fell strictly below
/// their current debt, in input order, with their final debts.
pub open spec fn withdraw_seq(
    initial: Seq<Position>,
    caps: Seq<StrategyCaps>,
    fin: Seq<int>,
    k: nat,
) -> Seq<(StrategyId, int)>
    decreases k,
{
    if k == 0 {
        Seq::empty()
    } else {
        let prev = withdraw_seq(initial, caps, fin, (k - 1) as nat);
        if fin[k - 1] < wv(caps[k - 1].current_debt) {
            prev.push((initial[k - 1].strategy, fin[k - 1]))
        } else {
            prev
        }
    }
}

/// The strategies (from the first `k`) whose final debt did not fall below
/// their current debt, in input order, with their final debts.
pub open spec fn deposit_seq(
    initial: Seq<Position>,
    caps: Seq<StrategyCaps>,
    fin: Seq<int>,
    k: nat,
) -> Seq<(StrategyId, int)>
    decreases k,
{
    if k == 0 {
        Seq::empty()
    } else {
        let prev = deposit_seq(initial, caps, fin, (k - 1) as nat);
        if fin[k - 1] < wv(caps[k - 1].current_debt) {
            prev
        } else {
            prev.push((initial[k - 1].strategy, fin[k - 1]))
        }
    }
}

/// A sequence read back to front.
pub open spec fn seq_rev(s: Seq<(StrategyId, int)>) -> Seq<(StrategyId, int)> {
    Seq::new(s.len(), |i: int| s[s.len() - 1 - i])
}

/// The emitted order: withdrawals in input order, then deposits reversed.
pub open spec fn plan_seq(initial: Seq<Position>, caps: Seq<StrategyCaps>, fin: Seq<int>) -> Seq<
    (StrategyId, int),
> {
    withdraw_seq(initial, caps, fin, initial.len()) + seq_rev(
        deposit_seq(initial, caps, fin, initial.len()),
    )
}

/// When the whole optimizer succeeds: a zero deposit unit returns early,
/// otherwise every chunk must run clean.
pub open spec fn alloc_ok(
    c: int,
    ti: int,
    ta: int,
    initial: Seq<Position>,
    curves: Seq<CurveParams>,
    caps: Seq<StrategyCaps>,
) -> bool {
    deposit_unit(ti, ta, c) == 0 || chunks_ok(initial_debts(initial), c, ti, ta, curves, caps)
}

/// The emitted positions: empty for a zero deposit unit, else the
/// partitioned final allocation.
pub open spec fn alloc_positions(
    c: int,
    ti: int,
    ta: int,
    initial: Seq<Position>,
    curves: Seq<CurveParams>,
    caps: Seq<StrategyCaps>,
) -> Seq<(StrategyId, int)> {
    if deposit_unit(ti, ta, c) == 0 {
        Seq::empty()
    } else {
        plan_seq(
            initial,
            caps,
            debts_after(initial_debts(initial), c, c, ti, ta, curves, caps),
        )
    }
}

/// A working debt vector reduced to its mathematical content.
pub open spec fn debts_model(s: Seq<Wide>) -> Seq<int> {
    s.map_values(|w: Wide| wv(w))
}

/// Splitting evenly never overshoots: the unit times the first `c - 1`
/// chunks fits inside the incremental capital, so the remainder is
/// non-negative.
pub proof fn lemma_remainder_nonneg(ti: int, ta: int, c: int)
    requires
        ti <= ta,
        c >= 1,
    ensures
        0 <= deposit_unit(ti, ta, c),
        deposit_unit(ti, ta, c) * (c - 1) <= ta - ti,
        0 <= chunk_remainder(ti, ta, c),
{
    let d = ta - ti;
    let q = d / c;
    vstd::arithmetic::div_mod::lemma_div_pos_is_pos(d, c);
    vstd::arithmetic::div_mod::lemma_fundamental_div_mod(d, c);
    assert(d % c >= 0) by (nonlinear_arith)
        requires c >= 1, d >= 0;
    assert(q * (c - 1) == c * q - q) by (nonlinear_arith);
}

/// For one chunk the unit is the whole incremental capital.
pub proof fn lemma_single_chunk_unit(ti: int, ta: int)
    requires
        ti <= ta,
    ensures
        deposit_unit(ti, ta, 1) == ta - ti,
{
    vstd::arithmetic::div_mod::lemma_div_basics(ta - ti);
}

/// The unit is zero exactly when the incremental capital is smaller than
/// the chunk count.
pub proof fn lemma_unit_zero_iff(ti: int, ta: int, c: int)
    requires
        ti <= ta,
        c >= 1,
    ensures
        deposit_unit(ti, ta, c) == 0 <==> ta - ti < c,
{
    let d = ta - ti;
    if d < c {
        vstd::arithmetic::div_mod::lemma_basic_div(d, c);
    } else {
        vstd::arithmetic::div_mod::lemma_div_is_ordered(c, d, c);
        vstd::arithmetic::div_mod::lemma_div_by_self(c);
    }
}

/// The scan starts at `(0, 0)`, never leaves the scanned range, and only a
/// feasible strategy with a positive APR can move the choice off index 0.
pub proof fn lemma_scan_best_props(
    debts: Seq<int>,
    unit: int,
    curves: Seq<CurveParams>,
    caps: Seq<StrategyCaps>,
    k: nat,
)
    ensures
        scan_best(debts, unit, curves, caps, k).0 >= 0,
        0 <= scan_best(debts, unit, curves, caps, k).1,
        scan_best(debts, unit, curves, caps, k).1 <= if k == 0 { 0int } else { k - 1 },
        scan_best(debts, unit, curves, caps, k).1 != 0 ==> cand_feasible(
            debts,
            unit,
            caps,
            scan_best(debts, unit, curves, caps, k).1,
        ),
    decreases k,
{
    if k > 0 {
        lemma_scan_best_props(debts, unit, curves, caps, (k - 1) as nat);
    }
}

proof fn lemma_models_push(s: Seq<Position>, q: Position)
    ensures
        plan_models(s.push(q)) == plan_models(s).push(pos_model(q)),
{
    assert(plan_models(s.push(q)) =~= plan_models(s).push(pos_model(q)));
}
/// Running chunks never changes how many strategies there are.
pub proof fn lemma_debts_after_len(
    init: Seq<int>,
    i: int,
    c: int,
    ti: int,
    ta: int,
    curves: Seq<CurveParams>,
    caps: Seq<StrategyCaps>,
)
    requires
        init.len() >= 1,
    ensures
        debts_after(init, i, c, ti, ta, curves, caps).len() == init.len(),
    decreases i,
{
    if i > 0 {
        lemma_debts_after_len(init, i - 1, c, ti, ta, curves, caps);
        let prev = debts_after(init, i - 1, c, ti, ta, curves, caps);
        let base = chunk_base(prev, i - 1, c, ti, ta);
        lemma_scan_best_props(base, deposit_unit(ti, ta, c), curves, caps, base.len());
    }
}

/// Capacity is respected away from strategy 0: when every strategy starts
/// within its cap, no strategy other than 0 ever ends a chunk above its
/// cap, because a chunk only moves off index 0 for a feasible strategy.
/// (Strategy 0 itself can be pushed past its cap by the final-chunk
/// remainder or by the no-APR fallback.)
pub proof fn lemma_capacity_respected(
    init: Seq<int>,
    i: int,
    c: int,
    ti: int,
    ta: int,
    curves: Seq<CurveParams>,
    caps: Seq<StrategyCaps>,
)
    requires
        init.len() == caps.len(),
        init.len() >= 1,
        forall|k: int| 1 <= k < init.len() ==> init[k] <= wv(caps[k].max_debt),
    ensures
        forall|k: int| 1 <= k < init.len() ==> debts_after(init, i, c, ti, ta, curves, caps)[k]
            <= wv(caps[k].max_debt),
    decreases i,
{
    if i > 0 {
        lemma_capacity_respected(init, i - 1, c, ti, ta, curves, caps);
        let prev = debts_after(init, i - 1, c, ti, ta, curves, caps);
        lemma_debts_after_len(init, i - 1, c, ti, ta, curves, caps);
        let base = chunk_base(prev, i - 1, c, ti, ta);
        let unit = deposit_unit(ti, ta, c);
        lemma_scan_best_props(base, unit, curves, caps, base.len());
        let best = scan_best(base, unit, curves, caps, base.len());
        assert forall|k: int| 1 <= k < init.len() implies debts_after(
            init,
            i,
            c,
            ti,
            ta,
            curves,
            caps,
        )[k] <= wv(caps[k].max_debt) by {
            assert(base[k] == prev[k]);
            if best.1 == k {
                assert(cand_feasible(base, unit, caps, k));
            }
        }
    }
}

/// Partition correctness: every emitted withdrawal entry belongs to a
/// strategy whose final debt fell strictly below its current debt, and
/// every deposit entry to one whose final debt did not.
pub proof fn lemma_partition_correct(
    initial: Seq<Position>,
    caps: Seq<StrategyCaps>,
    fin: Seq<int>,
    k: nat,
)
    ensures
        forall|t: int| 0 <= t < withdraw_seq(initial, caps, fin, k).len()
            ==> exists|x: int| {
                &&& 0 <= x < k
                &&& #[trigger] withdraw_seq(initial, caps, fin, k)[t] == ((
                    initial[x].strategy,
                    fin[x],
                ))
                &&& fin[x] < wv(caps[x].current_debt)
            },
        forall|t: int| 0 <= t < deposit_seq(initial, caps, fin, k).len()
            ==> exists|x: int| {
                &&& 0 <= x < k
                &&& #[trigger] deposit_seq(initial, caps, fin, k)[t] == ((
                    initial[x].strategy,
                    fin[x],
                ))
                &&& fin[x] >= wv(caps[x].current_debt)
            },
    decreases k,
{
    if k > 0 {
        lemma_partition_correct(initial, caps, fin, (k - 1) as nat);
        let wprev = withdraw_seq(initial, caps, fin, (k - 1) as nat);
        let dprev = deposit_seq(initial, caps, fin, (k - 1) as nat);
        let wnow = withdraw_seq(initial, caps, fin, k);
        let dnow = deposit_seq(initial, caps, fin, k);
        assert forall|t: int| 0 <= t < wnow.len() implies exists|x: int| {
            &&& 0 <= x < k
            &&& #[trigger] wnow[t] == ((initial[x].strategy, fin[x]))
            &&& fin[x] < wv(caps[x].current_debt)
        } by {
            if t < wprev.len() {
                assert(wnow[t] == wprev[t]);
            } else {
                assert(wnow[t] == (initial[k - 1].strategy, fin[k - 1]));
            }
        }
        assert forall|t: int| 0 <= t < dnow.len() implies exists|x: int| {
            &&& 0 <= x < k
            &&& #[trigger] dnow[t] == ((initial[x].strategy, fin[x]))
            &&& fin[x] >= wv(caps[x].current_debt)
        } by {
            if t < dprev.len() {
                assert(dnow[t] == dprev[t]);
            } else {
                assert(dnow[t] == (initial[k - 1].strategy, fin[k - 1]));
            }
        }
    }
}

/// One chunk's scan: find the feasible strategy with the strictly greatest
/// marginal APR, earliest index on ties, `(0, 0)` when no feasible strategy
/// has a positive APR.
#[verifier::rlimit(80)]
fn scan_chunk(
    debts: &Vec<Wide>,
    unit_w: Wide,
    curves: &Vec<CurveParams>,
    caps: &Vec<StrategyCaps>,
) -> (r: Result<(u64, usize), ArithmeticError>)
    requires
        debts@.len() == curves@.len(),
        debts@.len() == caps@.len(),
        debts@.len() >= 1,
    ensures
        r is Ok <==> scan_ok(
            debts_model(debts@),
            wv(unit_w),
            curves@,
            caps@,
            debts@.len(),
        ),
        r is Ok ==> r->Ok_0.0 as int == scan_best(
            debts_model(debts@),
            wv(unit_w),
            curves@,
            caps@,
            debts@.len(),
        ).0,
        r is Ok ==> r->Ok_0.1 as int == scan_best(
            debts_model(debts@),
            wv(unit_w),
            curves@,
            caps@,
            debts@.len(),
        ).1,
        r is Ok ==> r->Ok_0.1 < debts@.len(),
{
    let ghost base = debts_model(debts@);
    let ghost unit = wv(unit_w);
    let n = debts.len();
    let mut max_apr: u64 = 0;
    let mut max_index: usize = 0;
    let mut j: usize = 0;
    while j < n
        invariant
            j <= n,
            n == debts@.len(),
            debts@.len() == curves@.len(),
            debts@.len() == caps@.len(),
            n >= 1,
            base == debts_model(debts@),
            unit == wv(unit_w),
            max_apr as int == scan_best(base, unit, curves@, caps@, j as nat).0,
            max_index as int == scan_best(base, unit, curves@, caps@, j as nat).1,
            max_index < n,
            forall|t: int| 0 <= t < j ==> #[trigger] base[t] + unit < wb(),
            forall|t: int| 0 <= t < j && #[trigger] cand_feasible(base, unit, caps@, t) ==> {
                &&& apr_ok(curves@[t], cand_delta(base, unit, caps@, t))
                &&& cand_apr(base, unit, curves@, caps@, t) <= u64::MAX
            },
        decreases n - j,
    {
        let ghost prev_best = scan_best(base, unit, curves@, caps@, j as nat);
        proof {
            assert(base[j as int] == wv(debts@[j as int]));
        }
        let nd = match wide_add(&debts[j], &unit_w) {
            Some(x) => x,
            None => {
                proof {
                    if scan_ok(base, unit, curves@, caps@, n as nat) {
                        assert(cand_feasible(base, unit, caps@, j as int) || !cand_feasible(
                            base,
                            unit,
                            caps@,
                            j as int,
                        ));
                        assert(base[j as int] + unit < wb());
                        assert(false);
                    }
                }
                return Err(ArithmeticError);
            },
        };
        if wide_le(&nd, &caps[j].max_debt) {
            assert(cand_feasible(base, unit, caps@, j as int));
            let delta = SignedDelta::from_diff(&nd, &caps[j].current_debt);
            assert(delta_val(delta) == cand_delta(base, unit, caps@, j as int));
            let apr_w = match apr_after_debt_change(&curves[j], delta) {
                Ok(w) => w,
                Err(_) => {
                    proof {
                        if scan_ok(base, unit, curves@, caps@, n as nat) {
                            assert(apr_ok(curves@[j as int], cand_delta(base, unit, caps@,
                                j as int)));
                            assert(false);
                        }
                    }
                    return Err(ArithmeticError);
                },
            };
            let apr = match apr_w.to_u64() {
                Some(a) => a,
                None => {
                    proof {
                        if scan_ok(base, unit, curves@, caps@, n as nat) {
                            assert(cand_apr(base, unit, curves@, caps@, j as int) <= u64::MAX);
                            assert(false);
                        }
                    }
                    return Err(ArithmeticError);
                },
            };
            if apr > max_apr {
                max_apr = apr;
                max_index = j;
            }
            proof {
                assert(base[j as int] + unit < wb());
                assert(apr_ok(curves@[j as int], cand_delta(base, unit, caps@, j as int)));
                assert(cand_apr(base, unit, curves@, caps@, j as int) <= u64::MAX);
                assert(scan_best(base, unit, curves@, caps@, (j + 1) as nat) == (
                if cand_feasible(base, unit, caps@, j as int) && cand_apr(
                    base,
                    unit,
                    curves@,
                    caps@,
                    j as int,
                ) > prev_best.0 {
                    (cand_apr(base, unit, curves@, caps@, j as int), j as int)
                } else {
                    prev_best
                }));
            }
        } else {
            assert(!cand_feasible(base, unit, caps@, j as int));
            proof {
                assert(base[j as int] + unit < wb());
                assert(scan_best(base, unit, curves@, caps@, (j + 1) as nat) == prev_best);
            }
        }
        j += 1;
    }
    assert(scan_ok(base, unit, curves@, caps@, n as nat));
    Ok((max_apr, max_index))
}

/// The chunked greedy allocation. Splits `total_available_amount -
/// total_initial_amount` into `chunk_count` equal units (the division
/// leftover goes to strategy 0 on the final chunk), gives each unit to the
/// feasible strategy with the strictly greatest marginal APR (earliest
/// index on ties, index 0 when none is positive), and emits the final
/// debts, withdrawals first, then deposits in reverse input order.
#[verifier::rlimit(80)]
pub fn get_optimal_allocation(
    chunk_count: u64,
    total_initial_amount: Wide,
    total_available_amount: Wide,
    initial: &Vec<Position>,
    curves: &Vec<CurveParams>,
    caps: &Vec<StrategyCaps>,
) -> (r: Result<AllocationPlan, ArithmeticError>)
    requires
        initial@.len() == curves@.len(),
        initial@.len() == caps@.len(),
        1 <= chunk_count,
        wide_val(total_initial_amount) <= wide_val(total_available_amount),
        initial@.len() == 0 ==> wide_val(total_available_amount) - wide_val(
            total_initial_amount,
        ) < chunk_count,
    ensures
        r is Ok <==> alloc_ok(
            chunk_count as int,
            wv(total_initial_amount),
            wv(total_available_amount),
            initial@,
            curves@,
            caps@,
        ),
        r is Ok ==> plan_models(r->Ok_0.positions@) == alloc_positions(
            chunk_count as int,
            wv(total_initial_amount),
            wv(total_available_amount),
            initial@,
            curves@,
            caps@,
        ),
        r is Ok ==> r->Ok_0.no_apr_fallback == (deposit_unit(
            wv(total_initial_amount),
            wv(total_available_amount),
            chunk_count as int,
        ) != 0 && any_no_apr(
            initial_debts(initial@),
            chunk_count as int,
            wv(total_initial_amount),
            wv(total_available_amount),
            curves@,
            caps@,
        )),
        r is Ok && deposit_unit(
            wv(total_initial_amount),
            wv(total_available_amount),
            chunk_count as int,
        ) == 0 ==> r->Ok_0.positions@.len() == 0,
{
    let ghost ti = wv(total_initial_amount);
    let ghost ta = wv(total_available_amount);
    let ghost c = chunk_count as int;
    let ghost init = initial_debts(initial@);
    let ghost unit = deposit_unit(ti, ta, c);
    let n = initial.len();
    let diff = wide_sub(&total_available_amount, &total_initial_amount).unwrap();
    let unit_w = wide_div(&diff, &Wide::from_u64(chunk_count)).unwrap();
    if unit_w.is_zero() {
        assert(plan_models(Seq::<Position>::empty()) =~= Seq::<(StrategyId, int)>::empty());
        return Ok(AllocationPlan { positions: Vec::new(), no_apr_fallback: false });
    }
    proof {
        lemma_unit_zero_iff(ti, ta, c);
        lemma_remainder_nonneg(ti, ta, c);
    }
    assert(n >= 1);
    let mut debts: Vec<Wide> = Vec::new();
    let mut k: usize = 0;
    while k < n
        invariant
            k <= n,
            n == initial@.len(),
            debts@.len() == k,
            forall|t: int| 0 <= t < k ==> debts@[t] == initial@[t].debt,
        decreases n - k,
    {
        debts.push(initial[k].debt);
        k += 1;
    }
    assert(debts_model(debts@) =~= init);
    let mut warn: bool = false;
    let mut i: u64 = 0;
    while i < chunk_count
        invariant
            i <= chunk_count,
            n == initial@.len(),
            initial@.len() == curves@.len(),
            initial@.len() == caps@.len(),
            n >= 1,
            c == chunk_count as int,
            ti <= ta,
            init == initial_debts(initial@),
            unit == deposit_unit(ti, ta, c),
            ti == wv(total_initial_amount),
            ta == wv(total_available_amount),
            unit > 0,
            wide_val(unit_w) == unit,
            wide_val(diff) == ta - ti,
            debts@.len() == n,
            debts_model(debts@) == debts_after(init, i as int, c, ti, ta, curves@, caps@),
            forall|ii: int| 0 <= ii < i ==> #[trigger] chunk_ok(
                debts_after(init, ii, c, ti, ta, curves@, caps@),
                ii,
                c,
                ti,
                ta,
                curves@,
                caps@,
            ),
            warn == (exists|ii: int| 0 <= ii < i && #[trigger] chunk_no_apr(
                init,
                ii,
                c,
                ti,
                ta,
                curves@,
                caps@,
            )),
        decreases chunk_count - i,
    {
        let ghost state = debts_after(init, i as int, c, ti, ta, curves@, caps@);
        let ghost base = chunk_base(state, i as int, c, ti, ta);
        if i == chunk_count - 1 {
            proof {
                lemma_remainder_nonneg(ti, ta, c);
                assert(wide_val(total_available_amount) < wide_bound());
                assert(unit * (c - 1) < wb());
            }
            let m = wide_mul(&unit_w, &Wide::from_u64(chunk_count - 1)).unwrap();
            let rem = wide_sub(&diff, &m).unwrap();
            let nd0 = match wide_add(&debts[0], &rem) {
                Some(x) => x,
                None => {
                    proof {
                        assert(!chunk_ok(state, i as int, c, ti, ta, curves@, caps@));
                        assert(!chunks_ok(init, c, ti, ta, curves@, caps@)) by {
                            if chunks_ok(init, c, ti, ta, curves@, caps@) {
                                assert(chunk_ok(
                                    debts_after(init, i as int, c, ti, ta, curves@, caps@),
                                    i as int,
                                    c,
                                    ti,
                                    ta,
                                    curves@,
                                    caps@,
                                ));
                                assert(false);
                            }
                        };
                    }
                    return Err(ArithmeticError);
                },
            };
            debts.set(0, nd0);
            proof {
                assert(debts_model(debts@) =~= base);
            }
        } else {
            proof {
                assert(debts_model(debts@) == base);
            }
        }
        let scan = match scan_chunk(&debts, unit_w, curves, caps) {
            Ok(t) => t,
            Err(_) => {
                proof {
                    assert(base.len() == n);
                    assert(!scan_ok(base, unit, curves@, caps@, n as nat));
                    assert(!chunk_ok(state, i as int, c, ti, ta, curves@, caps@));
                    assert(!chunks_ok(init, c, ti, ta, curves@, caps@)) by {
                        if chunks_ok(init, c, ti, ta, curves@, caps@) {
                            assert(chunk_ok(
                                debts_after(init, i as int, c, ti, ta, curves@, caps@),
                                i as int,
                                c,
                                ti,
                                ta,
                                curves@,
                                caps@,
                            ));
                            assert(false);
                        }
                    };
                }
                return Err(ArithmeticError);
            },
        };
        let max_apr = scan.0;
        let max_index = scan.1;
        proof {
            assert(base.len() == n);
            assert(chunk_ok(state, i as int, c, ti, ta, curves@, caps@));
            if max_apr == 0 {
                assert(chunk_no_apr(init, i as int, c, ti, ta, curves@, caps@));
            } else {
                assert(!chunk_no_apr(init, i as int, c, ti, ta, curves@, caps@));
            }
        }
        if max_apr == 0 {
            warn = true;
        }
        proof {
            assert(cand_feasible(base, unit, caps@, max_index as int) || !cand_feasible(
                base,
                unit,
                caps@,
                max_index as int,
            ));
            assert(base[max_index as int] + unit < wb());
        }
        let nd = wide_add(&debts[max_index], &unit_w).unwrap();
        debts.set(max_index, nd);
        proof {
            assert(debts_model(debts@) =~= base.update(
                max_index as int,
                base[max_index as int] + unit,
            ));
            assert(debts_model(debts@) == debts_after(
                init,
                i + 1,
                c,
                ti,
                ta,
                curves@,
                caps@,
            ));
        }
        i += 1;
    }
    let ghost fin = debts_after(init, c, c, ti, ta, curves@, caps@);
    assert(chunks_ok(init, c, ti, ta, curves@, caps@));
    assert(debts_model(debts@) == fin);
    let mut withdraws: Vec<Position> = Vec::new();
    let mut deposits: Vec<Position> = Vec::new();
    let mut k2: usize = 0;
    while k2 < n
        invariant
            k2 <= n,
            n == initial@.len(),
            initial@.len() == caps@.len(),
            debts@.len() == n,
            debts_model(debts@) == fin,
            fin.len() == n,
            plan_models(withdraws@) == withdraw_seq(initial@, caps@, fin, k2 as nat),
            plan_models(deposits@) == deposit_seq(initial@, caps@, fin, k2 as nat),
        decreases n - k2,
    {
        let q = Position { strategy: initial[k2].strategy, debt: debts[k2] };
        proof {
            lemma_models_push(withdraws@, q);
            lemma_models_push(deposits@, q);
        }
        if wide_lt(&debts[k2], &caps[k2].current_debt) {
            withdraws.push(q);
        } else {
            deposits.push(q);
        }
        k2 += 1;
    }
    let ghost wsq = withdraw_seq(initial@, caps@, fin, n as nat);
    let ghost dsq = deposit_seq(initial@, caps@, fin, n as nat);
    let dlen = deposits.len();
    let mut t: usize = 0;
    while t < dlen
        invariant
            t <= dlen,
            dlen == deposits@.len(),
            plan_models(deposits@) == dsq,
            dsq.len() == dlen,
            plan_models(withdraws@) == wsq + seq_rev(dsq).take(t as int),
        decreases dlen - t,
    {
        let q = deposits[dlen - 1 - t];
        proof {
            lemma_models_push(withdraws@, q);
            assert(wsq + seq_rev(dsq).take((t + 1) as int) =~= (wsq + seq_rev(dsq).take(
                t as int,
            )).push(pos_model(q)));
        }
        withdraws.push(q);
        t += 1;
    }
    proof {
        assert(seq_rev(dsq).take(dlen as int) =~= seq_rev(dsq));
        assert(wsq + seq_rev(dsq).take(dlen as int) == wsq + seq_rev(dsq));
        assert(plan_models(withdraws@) == plan_seq(initial@, caps@, fin));
    }
    Ok(AllocationPlan { positions: withdraws, no_apr_fallback: warn })
}

} // verus!
