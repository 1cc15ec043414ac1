//! The allocation aggregator: the debt-weighted blended APR before and
//! after the proposed reallocation, and the decision gate that discards any
//! plan that does not strictly improve it.

use vstd::prelude::*;
use crate::wide::{Wide, wide_val, wide_add, wide_mul, wide_div, wv, wb};
use crate::model::{CurveParams, StrategyCaps, Position, StrategyId, ArithmeticError, SignedDelta,
    delta_val};
use crate::apr::{apr_ok, apr_val, apr_after_debt_change};

verus! {

/// Weighted sum of the stored-state APRs of the first `k` strategies, each
/// weighted by its current debt.
pub open spec fn cur_apr_sum(curves: Seq<CurveParams>, caps: Seq<StrategyCaps>, k: nat) -> int
    decreases k,
{
    if k == 0 {
        0
    } else {
        cur_apr_sum(curves, caps, (k - 1) as nat) + apr_val(curves[k - 1], 0) * wv(
            caps[k - 1].current_debt,
        )
    }
}

/// Total current debt of the first `k` strategies.
pub open spec fn cur_amount_sum(caps: Seq<StrategyCaps>, k: nat) -> int
    decreases k,
{
    if k == 0 {
        0
    } else {
        cur_amount_sum(caps, (k - 1) as nat) + wv(caps[k - 1].current_debt)
    }
}

/// When the current-APR pass runs without an arithmetic failure: each
/// zero-change APR evaluates, each weighted term and each running sum stays
/// within 256 bits.
pub open spec fn cur_apr_ok(curves: Seq<CurveParams>, caps: Seq<StrategyCaps>, k: nat) -> bool {
    forall|x: int| 0 <= x < k ==> {
        &&& #[trigger] apr_ok(curves[x], 0)
        &&& apr_val(curves[x], 0) * wv(caps[x].current_debt) < wb()
        &&& cur_apr_sum(curves, caps, (x + 1) as nat) < wb()
        &&& cur_amount_sum(caps, (x + 1) as nat) < wb()
    }
}

/// The blended current APR: the weighted sum over the total weight, zero
/// when either total is zero.
pub open spec fn current_apr_val(curves: Seq<CurveParams>, caps: Seq<StrategyCaps>) -> int {
    let s = cur_apr_sum(curves, caps, caps.len());
    let a = cur_amount_sum(caps, caps.len());
    if s == 0 || a == 0 {
        0
    } else {
        s / a
    }
}

/// The first index of `initial` holding `sid` at or after `j`, or the list
/// length when none does.
pub open spec fn find_strategy(initial: Seq<Position>, sid: StrategyId, j: int) -> int
    decreases initial.len() - j,
{
    if j < 0 || j >= initial.len() {
        initial.len() as int
    } else if initial[j].strategy == sid {
        j
    } else {
        find_strategy(initial, sid, j + 1)
    }
}

/// Plan entry `i` is aggregated only when it and every earlier entry found
/// a matching strategy; the scan stops at the first entry that does not.
pub open spec fn entry_processed(
    initial: Seq<Position>,
    opt: Seq<(StrategyId, int)>,
    i: int,
) -> bool {
    forall|t: int| 0 <= t <= i ==> #[trigger] find_strategy(initial, opt[t].0, 0) < initial.len()
}

/// Weighted sum of the after-change APRs of the first `k` aggregated plan
/// entries, each weighted by its target debt.
pub open spec fn new_apr_sum(
    initial: Seq<Position>,
    curves: Seq<CurveParams>,
    caps: Seq<StrategyCaps>,
    opt: Seq<(StrategyId, int)>,
    k: nat,
) -> int
    decreases k,
{
    if k == 0 {
        0
    } else {
        let prev = new_apr_sum(initial, curves, caps, opt, (k - 1) as nat);
        if entry_processed(initial, opt, k - 1) {
            let x = find_strategy(initial, opt[k - 1].0, 0);
            prev + apr_val(curves[x], opt[k - 1].1 - wv(caps[x].current_debt)) * opt[k - 1].1
        } else {
            prev
        }
    }
}

/// Total target debt of the first `k` aggregated plan entries.
pub open spec fn new_amount_sum(
    initial: Seq<Position>,
    opt: Seq<(StrategyId, int)>,
    k: nat,
) -> int
    decreases k,
{
    if k == 0 {
        0
    } else {
        let prev = new_amount_sum(initial, opt, (k - 1) as nat);
        if entry_processed(initial, opt, k - 1) {
            prev + opt[k - 1].1
        } else {
            prev
        }
    }
}

/// When the new-APR pass runs without an arithmetic failure, for every
/// entry it actually aggregates.
pub open spec fn new_apr_ok(
    initial: Seq<Position>,
    curves: Seq<CurveParams>,
    caps: Seq<StrategyCaps>,
    opt: Seq<(StrategyId, int)>,
    k: nat,
) -> bool {
    forall|x: int| 0 <= x < k && #[trigger] entry_processed(initial, opt, x) ==> {
        let idx = find_strategy(initial, opt[x].0, 0);
        &&& apr_ok(curves[idx], opt[x].1 - wv(caps[idx].current_debt))
        &&& apr_val(curves[idx], opt[x].1 - wv(caps[idx].current_debt)) * opt[x].1 < wb()
        &&& new_apr_sum(initial, curves, caps, opt, (x + 1) as nat) < wb()
        &&& new_amount_sum(initial, opt, (x + 1) as nat) < wb()
    }
}

/// The blended APR the plan implies: the weighted sum over the total
/// weight, zero when either total is zero.
pub open spec fn new_apr_val_of(
    initial: Seq<Position>,
    curves: Seq<CurveParams>,
    caps: Seq<StrategyCaps>,
    opt: Seq<(StrategyId, int)>,
) -> int {
    let s = new_apr_sum(initial, curves, caps, opt, opt.len());
    let a = new_amount_sum(initial, opt, opt.len());
    if s == 0 || a == 0 {
        0
    } else {
        s / a
    }
}

/// When the whole aggregation succeeds: an empty plan returns `(0, 0)`
/// outright, otherwise both passes must run clean and both blended rates
/// must fit 64 bits.
pub open spec fn agg_ok(
    initial: Seq<Position>,
    curves: Seq<CurveParams>,
    caps: Seq<StrategyCaps>,
    opt: Seq<(StrategyId, int)>,
) -> bool {
    opt.len() == 0 || {
        &&& cur_apr_ok(curves, caps, caps.len())
        &&& current_apr_val(curves, caps) <= u64::MAX
        &&& new_apr_ok(initial, curves, caps, opt, opt.len())
        &&& new_apr_val_of(initial, curves, caps, opt) <= u64::MAX
    }
}

/// The pair `(currentApr, newApr)` the aggregation reports.
pub open spec fn agg_pair(
    initial: Seq<Position>,
    curves: Seq<CurveParams>,
    caps: Seq<StrategyCaps>,
    opt: Seq<(StrategyId, int)>,
) -> (int, int) {
    if opt.len() == 0 {
        (0int, 0int)
    } else {
        (current_apr_val(curves, caps), new_apr_val_of(initial, curves, caps, opt))
    }
}

/// Once a plan entry finds no matching strategy, nothing after it is
/// aggregated: both running sums stay where they were.
proof fn lemma_new_sums_stall(
    initial: Seq<Position>,
    curves: Seq<CurveParams>,
    caps: Seq<StrategyCaps>,
    opt: Seq<(StrategyId, int)>,
    i: int,
    k: nat,
)
    requires
        0 <= i <= k,
        find_strategy(initial, opt[i].0, 0) >= initial.len(),
    ensures
        new_apr_sum(initial, curves, caps, opt, k) == new_apr_sum(
            initial,
            curves,
            caps,
            opt,
            i as nat,
        ),
        new_amount_sum(initial, opt, k) == new_amount_sum(initial, opt, i as nat),
    decreases k,
{
    if k > i {
        lemma_new_sums_stall(initial, curves, caps, opt, i, (k - 1) as nat);
        assert(!entry_processed(initial, opt, k - 1));
    }
}

/// The blended APR of the current allocation and of the proposed one.
/// Both are debt-weighted averages of per-strategy annualized rates; the
/// plan's entries are matched back to strategies by identity, and the scan
/// stops quietly at the first entry with no match.
#[verifier::rlimit(100)]
pub fn get_current_and_new_apr(
    initial: &Vec<Position>,
    curves: &Vec<CurveParams>,
    caps: &Vec<StrategyCaps>,
    optimal: &Vec<Position>,
) -> (r: Result<(u64, u64), ArithmeticError>)
    requires
        initial@.len() == curves@.len(),
        initial@.len() == caps@.len(),
    ensures
        r is Ok <==> agg_ok(initial@, curves@, caps@, crate::optimizer::plan_models(optimal@)),
        r is Ok ==> r->Ok_0.0 as int == agg_pair(
            initial@,
            curves@,
            caps@,
            crate::optimizer::plan_models(optimal@),
        ).0,
        r is Ok ==> r->Ok_0.1 as int == agg_pair(
            initial@,
            curves@,
            caps@,
            crate::optimizer::plan_models(optimal@),
        ).1,
{
    let ghost om = crate::optimizer::plan_models(optimal@);
    if optimal.len() == 0 {
        return Ok((0, 0));
    }
    let n = initial.len();
    let mut total_apr = Wide::from_u64(0);
    let mut total_amount = Wide::from_u64(0);
    let mut x: usize = 0;
    while x < n
        invariant
            x <= n,
            n == initial@.len(),
            initial@.len() == curves@.len(),
            initial@.len() == caps@.len(),
            om == crate::optimizer::plan_models(optimal@),
            om.len() == optimal@.len(),
            om.len() > 0,
            wide_val(total_apr) == cur_apr_sum(curves@, caps@, x as nat),
            wide_val(total_amount) == cur_amount_sum(caps@, x as nat),
            forall|t: int| 0 <= t < x ==> {
                &&& #[trigger] apr_ok(curves@[t], 0)
                &&& apr_val(curves@[t], 0) * wv(caps@[t].current_debt) < wb()
                &&& cur_apr_sum(curves@, caps@, (t + 1) as nat) < wb()
                &&& cur_amount_sum(caps@, (t + 1) as nat) < wb()
            },
        decreases n - x,
    {
        let apr_w = match apr_after_debt_change(&curves[x], SignedDelta::zero()) {
            Ok(w) => w,
            Err(_) => {
                proof {
                    assert(!cur_apr_ok(curves@, caps@, caps@.len())) by {
                        if cur_apr_ok(curves@, caps@, caps@.len()) {
                            assert(apr_ok(curves@[x as int], 0));
                            assert(false);
                        }
                    };
                }
                return Err(ArithmeticError);
            },
        };
        let m = match wide_mul(&apr_w, &caps[x].current_debt) {
            Some(w) => w,
            None => {
                proof {
                    assert(!cur_apr_ok(curves@, caps@, caps@.len())) by {
                        if cur_apr_ok(curves@, caps@, caps@.len()) {
                            assert(apr_ok(curves@[x as int], 0));
                            assert(apr_val(curves@[x as int], 0) * wv(
                                caps@[x as int].current_debt,
                            ) < wb());
                            assert(false);
                        }
                    };
                }
                return Err(ArithmeticError);
            },
        };
        total_apr = match wide_add(&total_apr, &m) {
            Some(w) => w,
            None => {
                proof {
                    assert(!cur_apr_ok(curves@, caps@, caps@.len())) by {
                        if cur_apr_ok(curves@, caps@, caps@.len()) {
                            assert(apr_ok(curves@[x as int], 0));
                            assert(cur_apr_sum(curves@, caps@, (x + 1) as nat) < wb());
                            assert(false);
                        }
                    };
                }
                return Err(ArithmeticError);
            },
        };
        total_amount = match wide_add(&total_amount, &caps[x].current_debt) {
            Some(w) => w,
            None => {
                proof {
                    assert(!cur_apr_ok(curves@, caps@, caps@.len())) by {
                        if cur_apr_ok(curves@, caps@, caps@.len()) {
                            assert(apr_ok(curves@[x as int], 0));
                            assert(cur_amount_sum(caps@, (x + 1) as nat) < wb());
                            assert(false);
                        }
                    };
                }
                return Err(ArithmeticError);
            },
        };
        x += 1;
    }
    let current_apr: u64;
    if total_apr.is_zero() || total_amount.is_zero() {
        current_apr = 0;
    } else {
        let q = wide_div(&total_apr, &total_amount).unwrap();
        current_apr = match q.to_u64() {
            Some(v) => v,
            None => { return Err(ArithmeticError); },
        };
    }
    assert(current_apr as int == current_apr_val(curves@, caps@));
    let m_len = optimal.len();
    let mut napr = Wide::from_u64(0);
    let mut namt = Wide::from_u64(0);
    let mut stop = false;
    let mut i: usize = 0;
    while i < m_len && !stop
        invariant
            i <= m_len,
            m_len == optimal@.len(),
            om == crate::optimizer::plan_models(optimal@),
            om.len() == m_len,
            n == initial@.len(),
            initial@.len() == curves@.len(),
            initial@.len() == caps@.len(),
            wide_val(napr) == new_apr_sum(initial@, curves@, caps@, om, i as nat),
            wide_val(namt) == new_amount_sum(initial@, om, i as nat),
            !stop ==> forall|t: int| 0 <= t < i ==> #[trigger] find_strategy(
                initial@,
                om[t].0,
                0,
            ) < n,
            forall|t: int| 0 <= t < i && #[trigger] entry_processed(initial@, om, t) ==> {
                let idx = find_strategy(initial@, om[t].0, 0);
                &&& apr_ok(curves@[idx], om[t].1 - wv(caps@[idx].current_debt))
                &&& apr_val(curves@[idx], om[t].1 - wv(caps@[idx].current_debt)) * om[t].1
                    < wb()
                &&& new_apr_sum(initial@, curves@, caps@, om, (t + 1) as nat) < wb()
                &&& new_amount_sum(initial@, om, (t + 1) as nat) < wb()
            },
            stop ==> wide_val(napr) == new_apr_sum(initial@, curves@, caps@, om, m_len as nat),
            stop ==> wide_val(namt) == new_amount_sum(initial@, om, m_len as nat),
            stop ==> new_apr_ok(initial@, curves@, caps@, om, m_len as nat),
        decreases m_len - i + (if stop { 0int } else { 1int }),
    {
        let sid = optimal[i].strategy;
        proof {
            assert(om[i as int] == crate::optimizer::pos_model(optimal@[i as int]));
            assert(om[i as int].0 == sid);
        }
        let mut found = false;
        let mut idx: usize = 0;
        let mut j2: usize = 0;
        while j2 < n && !found
            invariant
                j2 <= n,
                n == initial@.len(),
                !found ==> find_strategy(initial@, sid, 0) == find_strategy(
                    initial@,
                    sid,
                    j2 as int,
                ),
                found ==> idx < n && find_strategy(initial@, sid, 0) == idx as int,
            decreases n - j2 + (if found { 0int } else { 1int }),
        {
            if initial[j2].strategy == sid {
                found = true;
                idx = j2;
            } else {
                j2 += 1;
            }
        }
        if !found {
            proof {
                assert(find_strategy(initial@, om[i as int].0, 0) >= n);
                lemma_new_sums_stall(initial@, curves@, caps@, om, i as int, m_len as nat);
                assert(new_apr_ok(initial@, curves@, caps@, om, m_len as nat)) by {
                    assert forall|t: int| 0 <= t < m_len && #[trigger] entry_processed(
                        initial@,
                        om,
                        t,
                    ) implies {
                        let idx2 = find_strategy(initial@, om[t].0, 0);
                        &&& apr_ok(curves@[idx2], om[t].1 - wv(caps@[idx2].current_debt))
                        &&& apr_val(curves@[idx2], om[t].1 - wv(caps@[idx2].current_debt))
                            * om[t].1 < wb()
                        &&& new_apr_sum(initial@, curves@, caps@, om, (t + 1) as nat) < wb()
                        &&& new_amount_sum(initial@, om, (t + 1) as nat) < wb()
                    } by {
                        if t >= i {
                            assert(find_strategy(initial@, om[i as int].0, 0)
                                < initial@.len());
                            assert(false);
                        }
                    }
                };
            }
            stop = true;
        } else {
            proof {
                assert(entry_processed(initial@, om, i as int));
            }
            let delta = SignedDelta::from_diff(&optimal[i].debt, &caps[idx].current_debt);
            proof {
                assert(om[i as int].1 == wv(optimal@[i as int].debt));
                assert(delta_val(delta) == om[i as int].1 - wv(caps@[idx as int].current_debt));
            }
            let apr_w = match apr_after_debt_change(&curves[idx], delta) {
                Ok(w) => w,
                Err(_) => {
                    proof {
                        assert(!new_apr_ok(initial@, curves@, caps@, om, m_len as nat)) by {
                            if new_apr_ok(initial@, curves@, caps@, om, m_len as nat) {
                                assert(entry_processed(initial@, om, i as int));
                                assert(false);
                            }
                        };
                    }
                    return Err(ArithmeticError);
                },
            };
            let mterm = match wide_mul(&apr_w, &optimal[i].debt) {
                Some(w) => w,
                None => {
                    proof {
                        assert(!new_apr_ok(initial@, curves@, caps@, om, m_len as nat)) by {
                            if new_apr_ok(initial@, curves@, caps@, om, m_len as nat) {
                                assert(entry_processed(initial@, om, i as int));
                                assert(false);
                            }
                        };
                    }
                    return Err(ArithmeticError);
                },
            };
            napr = match wide_add(&napr, &mterm) {
                Some(w) => w,
                None => {
                    proof {
                        assert(!new_apr_ok(initial@, curves@, caps@, om, m_len as nat)) by {
                            if new_apr_ok(initial@, curves@, caps@, om, m_len as nat) {
                                assert(entry_processed(initial@, om, i as int));
                                assert(new_apr_sum(initial@, curves@, caps@, om, (i + 1) as nat)
                                    < wb());
                                assert(false);
                            }
                        };
                    }
                    return Err(ArithmeticError);
                },
            };
            namt = match wide_add(&namt, &optimal[i].debt) {
                Some(w) => w,
                None => {
                    proof {
                        assert(!new_apr_ok(initial@, curves@, caps@, om, m_len as nat)) by {
                            if new_apr_ok(initial@, curves@, caps@, om, m_len as nat) {
                                assert(entry_processed(initial@, om, i as int));
                                assert(new_amount_sum(initial@, om, (i + 1) as nat) < wb());
                                assert(false);
                            }
                        };
                    }
                    return Err(ArithmeticError);
                },
            };
            i += 1;
        }
    }
    let new_apr: u64;
    if napr.is_zero() || namt.is_zero() {
        new_apr = 0;
    } else {
        let q = wide_div(&napr, &namt).unwrap();
        new_apr = match q.to_u64() {
            Some(v) => v,
            None => { return Err(ArithmeticError); },
        };
    }
    assert(new_apr as int == new_apr_val_of(initial@, curves@, caps@, om));
    Ok((current_apr, new_apr))
}

} // verus!
