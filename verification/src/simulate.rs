//! Dry runs and best-path selection: a read-only fold of a hop list
//! through the quote table, and the selector that dry-runs every
//! registered candidate for a pair and keeps the best return.

use vstd::prelude::*;
use crate::asset::{Asset, AssetInfo, AssetV};
use crate::error::{ContractError, ErrorV};
use crate::operations::{
    ops_chained, valid_ops, SwapOperationV, SwapOperationsList, SwapOperationsListUnchecked,
};
use crate::quotes::{quote_lookup, PoolQuotes, QuoteV};
use crate::registry::{has_pair, listed_view, pair_listing, PathRegistry};

verus! {

/// The outcome of a dry run: the amount left after folding the running
/// amount through every hop's quote, or nothing if some hop has no
/// quote.
pub open spec fn spec_simulate(
    offer_amount: u128,
    ops: Seq<SwapOperationV>,
    qs: Seq<QuoteV>,
) -> Option<u128>
    decreases ops.len(),
{
    if ops.len() == 0 {
        Some(offer_amount)
    } else {
        match quote_lookup(
            qs,
            ops[0].pool,
            ops[0].offer_asset_info,
            offer_amount,
            ops[0].ask_asset_info,
        ) {
            Some(out) => spec_simulate(out, ops.skip(1), qs),
            None => None,
        }
    }
}

/// The error reported for a failed dry run: the first hop without a
/// quote, together with the amount that was offered to it. Meaningful
/// only when [`spec_simulate`] yields nothing.
pub open spec fn spec_simulate_err(
    offer_amount: u128,
    ops: Seq<SwapOperationV>,
    qs: Seq<QuoteV>,
) -> ErrorV
    decreases ops.len(),
{
    if ops.len() == 0 {
        arbitrary()
    } else {
        match quote_lookup(
            qs,
            ops[0].pool,
            ops[0].offer_asset_info,
            offer_amount,
            ops[0].ask_asset_info,
        ) {
            Some(out) => spec_simulate_err(out, ops.skip(1), qs),
            None => ErrorV::VenueQueryFailed {
                pool: ops[0].pool,
                offer: AssetV { info: ops[0].offer_asset_info, amount: offer_amount },
                ask: ops[0].ask_asset_info,
            },
        }
    }
}

/// Dry-runs a checked hop list: folds the offer amount through every
/// hop's quote without touching any state.
pub fn simulate_path(offer_amount: u128, path: &SwapOperationsList, quotes: &PoolQuotes) -> (r:
    Result<u128, ContractError>)
    ensures
        (match spec_simulate(offer_amount, path@, quotes@) {
            Some(out) => r matches Ok(v) && v == out,
            None => r matches Err(e) && e@ == spec_simulate_err(offer_amount, path@, quotes@),
        }),
{
    let mut amount = offer_amount;
    let mut i: usize = 0;
    proof {
        assert(path@.skip(0) =~= path@);
    }
    while i < path.len()
        invariant
            i <= path@.len(),
            spec_simulate(offer_amount, path@, quotes@) == spec_simulate(
                amount,
                path@.skip(i as int),
                quotes@,
            ),
            spec_simulate(offer_amount, path@, quotes@) is None ==> spec_simulate_err(
                offer_amount,
                path@,
                quotes@,
            ) == spec_simulate_err(amount, path@.skip(i as int), quotes@),
        decreases path@.len() - i,
    {
        let op = path.get(i);
        proof {
            assert(path@.skip(i as int)[0] == path@[i as int]);
        }
        match quotes.lookup(op.pool, &op.offer_asset_info, amount, &op.ask_asset_info) {
            Some(out) => {
                proof {
                    assert(path@.skip(i as int).skip(1) =~= path@.skip(i as int + 1));
                }
                amount = out;
            },
            None => {
                return Err(ContractError::VenueQueryFailed {
                    pool: op.pool,
                    offer: Asset::new(op.offer_asset_info.clone(), amount),
                    ask: op.ask_asset_info.clone(),
                });
            },
        }
        i = i + 1;
    }
    proof {
        assert(path@.skip(path@.len() as int) =~= Seq::<SwapOperationV>::empty());
    }
    Ok(amount)
}

/// Validates a caller-supplied hop list and dry-runs it. Rejects the
/// list exactly as [`SwapOperationsListUnchecked::check`] does; on a
/// valid list the result is the quote fold of [`spec_simulate`].
pub fn simulate_swap_operations(
    offer_amount: u128,
    operations: SwapOperationsListUnchecked,
    quotes: &PoolQuotes,
) -> (r: Result<u128, ContractError>)
    ensures
        operations@.len() == 0 ==> (r matches Err(e) && e@ == ErrorV::MustProvideOperations),
        operations@.len() > 0 && !ops_chained(operations@) ==> (r matches Err(e) && e@ == (
        ErrorV::InvalidSwapOperations {
            operations: operations@,
            reason: "swap operations are not chained"@,
        })),
        valid_ops(operations@) ==> (match spec_simulate(offer_amount, operations@, quotes@) {
            Some(out) => r matches Ok(v) && v == out,
            None => r matches Err(e) && e@ == spec_simulate_err(offer_amount, operations@, quotes@),
        }),
{
    let list = match operations.check() {
        Ok(list) => list,
        Err(e) => {
            return Err(e);
        },
    };
    simulate_path(offer_amount, &list, quotes)
}

/// A dry run is a pure function: it takes only shared references, so it
/// changes no state, and two runs on the same hop list, offer amount and
/// quote table are the same run, with the same outcome.
pub proof fn lemma_simulate_deterministic(
    offer_amount: u128,
    ops: Seq<SwapOperationV>,
    qs: Seq<QuoteV>,
    r1: Option<u128>,
    r2: Option<u128>,
)
    requires
        r1 == spec_simulate(offer_amount, ops, qs),
        r2 == spec_simulate(offer_amount, ops, qs),
    ensures
        r1 == r2,
{
}

/// Whether an id stands in the exclusion list.
pub open spec fn ids_contain(s: Seq<u64>, id: u64) -> bool {
    exists|i: int| 0 <= i < s.len() && s[i] == id
}

/// The candidates that remain of a listing once the excluded ids are
/// removed, in their original order.
pub open spec fn kept_listing(
    ls: Seq<(u64, Seq<SwapOperationV>)>,
    excluded: Seq<u64>,
) -> Seq<(u64, Seq<SwapOperationV>)>
    decreases ls.len(),
{
    if ls.len() == 0 {
        Seq::empty()
    } else {
        let rest = kept_listing(ls.drop_last(), excluded);
        if ids_contain(excluded, ls.last().0) {
            rest
        } else {
            rest.push(ls.last())
        }
    }
}

/// The dry-run outputs of a candidate list, assuming every run succeeds.
pub open spec fn sim_outs(
    ks: Seq<(u64, Seq<SwapOperationV>)>,
    offer_amount: u128,
    qs: Seq<QuoteV>,
) -> Seq<u128> {
    Seq::new(ks.len(), |k: int| spec_simulate(offer_amount, ks[k].1, qs)->Some_0)
}

/// The first candidate whose dry run fails, if any.
pub open spec fn first_sim_failure(
    ks: Seq<(u64, Seq<SwapOperationV>)>,
    offer_amount: u128,
    qs: Seq<QuoteV>,
) -> Option<int>
    decreases ks.len(),
{
    if ks.len() == 0 {
        None
    } else if spec_simulate(offer_amount, ks[0].1, qs) is None {
        Some(0)
    } else {
        match first_sim_failure(ks.skip(1), offer_amount, qs) {
            Some(k) => Some(k + 1),
            None => None,
        }
    }
}

/// The position of the winning output: the greatest amount, with ties
/// resolved in favour of the first-encountered candidate, because the
/// fold only moves on a strictly greater output.
pub open spec fn best_index(outs: Seq<u128>) -> int
    decreases outs.len(),
{
    if outs.len() <= 1 {
        0
    } else {
        let b = best_index(outs.drop_last());
        if outs.last() > outs[b] {
            outs.len() - 1
        } else {
            b
        }
    }
}

/// Best-of selection is fair and deterministic: the winner's output is
/// no less than any candidate's, and every earlier candidate's output is
/// strictly smaller, so among equals the first registered one wins.
pub proof fn lemma_best_index_is_first_max(outs: Seq<u128>)
    requires
        outs.len() > 0,
    ensures
        0 <= best_index(outs) < outs.len(),
        forall|j: int| 0 <= j < outs.len() ==> #[trigger] outs[j] <= outs[best_index(outs)],
        forall|j: int| 0 <= j < best_index(outs) ==> #[trigger] outs[j] < outs[best_index(outs)],
    decreases outs.len(),
{
    if outs.len() > 1 {
        lemma_best_index_is_first_max(outs.drop_last());
        assert(forall|j: int| 0 <= j < outs.len() - 1 ==> outs.drop_last()[j] == outs[j]);
    }
}

/// Spec-level image of a [`BestPathForPairResponse`].
#[verifier::ext_equal]
pub struct BestPathV {
    pub operations: Seq<SwapOperationV>,
    pub return_amount: u128,
}

/// The winning path of a best-of selection and the output it quoted.
#[derive(Debug)]
pub struct BestPathForPairResponse {
    pub operations: SwapOperationsList,
    pub return_amount: u128,
}

impl View for BestPathForPairResponse {
    type V = BestPathV;

    open spec fn view(&self) -> BestPathV {
        BestPathV { operations: self.operations@, return_amount: self.return_amount }
    }
}

/// Linear scan of the exclusion list.
fn contains_id(v: &Vec<u64>, id: u64) -> (r: bool)
    ensures
        r == ids_contain(v@, id),
{
    let mut i: usize = 0;
    while i < v.len()
        invariant
            i <= v@.len(),
            forall|j: int| 0 <= j < i ==> v@[j] != id,
        decreases v@.len() - i,
    {
        if v[i] == id {
            return true;
        }
        i = i + 1;
    }
    false
}

/// Filtering one more candidate keeps it exactly when its id is not
/// excluded.
proof fn lemma_kept_take_step(ls: Seq<(u64, Seq<SwapOperationV>)>, excluded: Seq<u64>, i: int)
    requires
        0 <= i < ls.len(),
    ensures
        kept_listing(ls.take(i + 1), excluded) == (if ids_contain(excluded, ls[i].0) {
            kept_listing(ls.take(i), excluded)
        } else {
            kept_listing(ls.take(i), excluded).push(ls[i])
        }),
{
    assert(ls.take(i + 1).drop_last() =~= ls.take(i));
    assert(ls.take(i + 1).last() == ls[i]);
}

/// A failure at position k, after k successes, is the first failure.
proof fn lemma_first_sim_failure_at(
    ks: Seq<(u64, Seq<SwapOperationV>)>,
    offer_amount: u128,
    qs: Seq<QuoteV>,
    k: int,
)
    requires
        0 <= k < ks.len(),
        forall|j: int| 0 <= j < k ==> spec_simulate(offer_amount, (#[trigger] ks[j]).1, qs) is Some,
        spec_simulate(offer_amount, ks[k].1, qs) is None,
    ensures
        first_sim_failure(ks, offer_amount, qs) == Some(k),
    decreases k,
{
    if k == 0 {
    } else {
        assert(forall|j: int| 0 <= j < k - 1 ==> ks.skip(1)[j] == ks[j + 1]);
        lemma_first_sim_failure_at(ks.skip(1), offer_amount, qs, k - 1);
    }
}

/// When every candidate's dry run succeeds there is no first failure.
proof fn lemma_no_sim_failure(ks: Seq<(u64, Seq<SwapOperationV>)>, offer_amount: u128, qs: Seq<
    QuoteV,
>)
    requires
        forall|j: int|
            0 <= j < ks.len() ==> spec_simulate(offer_amount, (#[trigger] ks[j]).1, qs) is Some,
    ensures
        first_sim_failure(ks, offer_amount, qs) is None,
    decreases ks.len(),
{
    if ks.len() > 0 {
        assert(forall|j: int| 0 <= j < ks.len() - 1 ==> ks.skip(1)[j] == ks[j + 1]);
        lemma_no_sim_failure(ks.skip(1), offer_amount, qs);
    }
}

/// Dry-runs every registered path for (offer, ask) that is not excluded
/// and returns the one quoting the greatest output, ties resolved in
/// favour of the earliest id. With no registered path the "no path
/// found" condition propagates; with every path excluded the "no paths
/// to check" condition is reported; a failed dry run reports its first
/// failing hop.
pub fn query_best_path_for_pair(
    registry: &PathRegistry,
    offer_amount: u128,
    offer: &AssetInfo,
    ask: &AssetInfo,
    exclude_paths: Option<Vec<u64>>,
    quotes: &PoolQuotes,
) -> (r: Result<BestPathForPairResponse, ContractError>)
    ensures
        ({
            let listing = pair_listing(registry@.entries, offer@, ask@);
            let ex = (match exclude_paths {
                Some(v) => v@,
                None => Seq::<u64>::empty(),
            });
            let kept = kept_listing(listing, ex);
            &&& !has_pair(registry@.entries, offer@, ask@) ==> (r matches Err(e) && e@ == (
            ErrorV::NoPathFound { offer: offer@, ask: ask@ }))
            &&& has_pair(registry@.entries, offer@, ask@) && kept.len() == 0 ==> (r matches Err(e)
                && e@ == ErrorV::NoPathsToCheck)
            &&& kept.len() > 0 ==> (match first_sim_failure(kept, offer_amount, quotes@) {
                Some(k) => r matches Err(e) && e@ == spec_simulate_err(
                    offer_amount,
                    kept[k].1,
                    quotes@,
                ),
                None => r matches Ok(resp) && resp@ == (BestPathV {
                    operations: kept[best_index(sim_outs(kept, offer_amount, quotes@))].1,
                    return_amount: sim_outs(kept, offer_amount, quotes@)[best_index(
                        sim_outs(kept, offer_amount, quotes@),
                    )],
                }),
            })
        }),
{
    let listing = match registry.list(offer, ask) {
        Ok(v) => v,
        Err(e) => {
            return Err(e);
        },
    };
    let no_exclusions: Vec<u64> = Vec::new();
    let excluded: &Vec<u64> = match &exclude_paths {
        Some(v) => v,
        None => &no_exclusions,
    };
    proof {
        assert(no_exclusions@ =~= Seq::<u64>::empty());
    }
    let ghost lsv = pair_listing(registry@.entries, offer@, ask@);
    let ghost exv = excluded@;
    proof {
        assert(exv == (match exclude_paths {
            Some(v) => v@,
            None => Seq::<u64>::empty(),
        }));
    }
    proof {
        assert forall|j: int|
            0 <= j < listing@.len() implies (#[trigger] listing@[j]).0 == lsv[j].0
            && listing@[j].1@ == lsv[j].1 by {
            assert(listed_view(listing@)[j] == lsv[j]);
        }
    }

    let mut kept: Vec<(u64, SwapOperationsList)> = Vec::new();
    let mut i: usize = 0;
    proof {
        assert(lsv.take(0) =~= Seq::<(u64, Seq<SwapOperationV>)>::empty());
    }
    while i < listing.len()
        invariant
            i <= listing@.len(),
            listing@.len() == lsv.len(),
            exv == excluded@,
            forall|j: int|
                0 <= j < listing@.len() ==> (#[trigger] listing@[j]).0 == lsv[j].0
                    && listing@[j].1@ == lsv[j].1,
            kept@.len() == kept_listing(lsv.take(i as int), exv).len(),
            forall|j: int|
                0 <= j < kept@.len() ==> (#[trigger] kept@[j]).0 == kept_listing(
                    lsv.take(i as int),
                    exv,
                )[j].0 && kept@[j].1@ == kept_listing(lsv.take(i as int), exv)[j].1,
        decreases listing@.len() - i,
    {
        proof {
            lemma_kept_take_step(lsv, exv, i as int);
            assert(listing@[i as int].0 == lsv[i as int].0);
            assert(listing@[i as int].1@ == lsv[i as int].1);
        }
        let ghost kept_prev = kept@;
        if !contains_id(excluded, listing[i].0) {
            let path = listing[i].1.clone();
            kept.push((listing[i].0, path));
        }
        proof {
            let spec_prev = kept_listing(lsv.take(i as int), exv);
            let spec_cur = kept_listing(lsv.take(i as int + 1), exv);
            if !ids_contain(exv, lsv[i as int].0) {
                assert(spec_cur == spec_prev.push(lsv[i as int]));
                assert(kept@.len() == spec_cur.len());
                assert forall|j: int|
                    0 <= j < kept@.len() implies (#[trigger] kept@[j]).0 == spec_cur[j].0
                    && kept@[j].1@ == spec_cur[j].1 by {
                    if j < kept@.len() - 1 {
                        assert(kept@[j] == kept_prev[j]);
                        assert(spec_cur[j] == spec_prev[j]);
                    } else {
                        assert(spec_cur[j] == lsv[i as int]);
                        assert(kept@[j].0 == listing@[i as int].0);
                        assert(kept@[j].1@ == listing@[i as int].1@);
                    }
                }
            } else {
                assert(spec_cur == spec_prev);
            }
        }
        i = i + 1;
    }
    proof {
        assert(lsv.take(lsv.len() as int) =~= lsv);
    }
    let ghost keptv = kept_listing(lsv, exv);

    if kept.len() == 0 {
        return Err(ContractError::NoPathsToCheck);
    }

    let mut best_idx: usize = 0;
    let mut best_out: u128 = 0;
    let ghost mut outs = Seq::<u128>::empty();
    let mut k: usize = 0;
    while k < kept.len()
        invariant
            k <= kept@.len(),
            kept@.len() == keptv.len(),
            keptv.len() > 0,
            has_pair(registry@.entries, offer@, ask@),
            keptv == kept_listing(
                pair_listing(registry@.entries, offer@, ask@),
                (match exclude_paths {
                    Some(v) => v@,
                    None => Seq::<u64>::empty(),
                }),
            ),
            forall|j: int|
                0 <= j < kept@.len() ==> (#[trigger] kept@[j]).0 == keptv[j].0 && kept@[j].1@
                    == keptv[j].1,
            outs.len() == k,
            forall|j: int|
                0 <= j < k ==> spec_simulate(offer_amount, (#[trigger] keptv[j]).1, quotes@)
                    == Some(outs[j]),
            k > 0 ==> {
                &&& best_idx < k
                &&& best_idx == best_index(outs)
                &&& best_out == outs[best_idx as int]
            },
        decreases kept@.len() - k,
    {
        let out = match simulate_path(offer_amount, &kept[k].1, quotes) {
            Ok(out) => out,
            Err(e) => {
                proof {
                    lemma_first_sim_failure_at(keptv, offer_amount, quotes@, k as int);
                }
                return Err(e);
            },
        };
        proof {
            assert(outs.push(out).drop_last() =~= outs);
        }
        if k == 0 || out > best_out {
            best_idx = k;
            best_out = out;
        }
        proof {
            outs = outs.push(out);
        }
        k = k + 1;
    }
    proof {
        lemma_no_sim_failure(keptv, offer_amount, quotes@);
        assert(outs =~= sim_outs(keptv, offer_amount, quotes@));
    }
    let path = kept[best_idx].1.clone();
    Ok(BestPathForPairResponse { operations: path, return_amount: best_out })
}

} // verus!
