//! The hop execution protocol: a validated hop list becomes an ordered
//! queue of deferred actions — one "execute hop" per hop, then, if a
//! minimum-receive threshold was supplied, one guarded assertion carrying
//! a balance snapshot taken before any hop ran. The queue is drained in
//! FIFO order against the modeled ledger; each hop consumes whatever
//! balance the contract currently holds of its offer asset
//! (balance-difference accounting), crediting the final recipient on the
//! last hop and the contract itself in between.

use vstd::prelude::*;
use crate::asset::{Asset, AssetInfo, AssetInfoV, AssetV};
use crate::error::{ContractError, ErrorV};
use crate::ledger::{spec_balance, spec_set_balance, BalanceEntryV, Ledger};
use crate::operations::{spec_to, SwapOperation, SwapOperationV, SwapOperationsList};
use crate::quotes::{quote_lookup, PoolQuotes, QuoteV};

verus! {

/// Spec-level image of an [`Action`].
#[verifier::ext_equal]
pub enum ActionV {
    ExecuteSwapOperation { operation: SwapOperationV, to: Seq<char> },
    AssertMinimumReceive {
        asset_info: AssetInfoV,
        prev_balance: u128,
        token_in: AssetV,
        minimum_receive: u128,
        recipient: Seq<char>,
    },
}

/// One deferred continuation action. Such actions are privileged
/// internal steps: only the contract's own identity may invoke them.
#[derive(Debug)]
pub enum Action {
    /// Convert the contract's whole current balance of the hop's offer
    /// asset through the hop's venue, crediting `to`.
    ExecuteSwapOperation { operation: SwapOperation, to: String },
    /// Assert that the recipient's balance of `asset_info` rose by at
    /// least `minimum_receive` over the snapshot `prev_balance`;
    /// `token_in` is carried for diagnostic reporting.
    AssertMinimumReceive {
        asset_info: AssetInfo,
        prev_balance: u128,
        token_in: Asset,
        minimum_receive: u128,
        recipient: String,
    },
}

impl View for Action {
    type V = ActionV;

    open spec fn view(&self) -> ActionV {
        match self {
            Action::ExecuteSwapOperation { operation, to } => (
                ActionV::ExecuteSwapOperation { operation: operation@, to: to@ }
            ),
            Action::AssertMinimumReceive {
                asset_info,
                prev_balance,
                token_in,
                minimum_receive,
                recipient,
            } => (
                ActionV::AssertMinimumReceive {
                    asset_info: asset_info@,
                    prev_balance: *prev_balance,
                    token_in: token_in@,
                    minimum_receive: *minimum_receive,
                    recipient: recipient@,
                }
            ),
        }
    }
}

/// The spec-level image of an action queue.
pub open spec fn actions_view(s: Seq<Action>) -> Seq<ActionV> {
    Seq::new(s.len(), |i: int| s[i]@)
}

/// The action queue planned for one execution: one hop action per hop in
/// list order — intermediate hops credit the contract, the last credits
/// the recipient — then, only if a threshold was supplied, the guarded
/// minimum-receive assertion carrying the pre-execution snapshot.
pub open spec fn spec_plan(
    ops: Seq<SwapOperationV>,
    minimum_receive: Option<u128>,
    recipient: Seq<char>,
    contract: Seq<char>,
    snapshot: u128,
    token_in: AssetV,
) -> Seq<ActionV> {
    let hops = Seq::new(
        ops.len(),
        |i: int|
            ActionV::ExecuteSwapOperation {
                operation: ops[i],
                to: if i == ops.len() - 1 {
                    recipient
                } else {
                    contract
                },
            },
    );
    match minimum_receive {
        Some(m) => hops.push(
            ActionV::AssertMinimumReceive {
                asset_info: spec_to(ops),
                prev_balance: snapshot,
                token_in,
                minimum_receive: m,
                recipient,
            },
        ),
        None => hops,
    }
}

/// The outcome of the minimum-receive guard: underflow of the balance
/// difference is a fatal arithmetic error; a difference below the
/// threshold is the structured economic failure carrying wanted and got.
pub open spec fn spec_assert_minimum_receive(
    asset_info: AssetInfoV,
    prev_balance: u128,
    token_in: AssetV,
    minimum_receive: u128,
    recipient_balance: u128,
) -> Result<(), ErrorV> {
    if recipient_balance < prev_balance {
        Err(ErrorV::Overflow)
    } else if recipient_balance - prev_balance < minimum_receive {
        Err(
            ErrorV::FailedMinimumReceive {
                token_in,
                wanted: AssetV { info: asset_info, amount: minimum_receive },
                got: AssetV {
                    info: asset_info,
                    amount: (recipient_balance - prev_balance) as u128,
                },
            },
        )
    } else {
        Ok(())
    }
}

/// One action applied to the ledger. A hop with a zero offer balance is
/// a no-op; otherwise the whole balance is converted through the venue,
/// the offer balance drains to zero and the output credits `to`.
pub open spec fn spec_step(
    led: Seq<BalanceEntryV>,
    action: ActionV,
    contract: Seq<char>,
    qs: Seq<QuoteV>,
) -> Result<Seq<BalanceEntryV>, ErrorV> {
    match action {
        ActionV::ExecuteSwapOperation { operation, to } => {
            let bal = spec_balance(led, contract, operation.offer_asset_info);
            if bal == 0 {
                Ok(led)
            } else {
                match quote_lookup(
                    qs,
                    operation.pool,
                    operation.offer_asset_info,
                    bal,
                    operation.ask_asset_info,
                ) {
                    None => Err(
                        ErrorV::VenueQueryFailed {
                            pool: operation.pool,
                            offer: AssetV { info: operation.offer_asset_info, amount: bal },
                            ask: operation.ask_asset_info,
                        },
                    ),
                    Some(out) => {
                        let drained = spec_set_balance(led, contract, operation.offer_asset_info, 0);
                        let prior = spec_balance(drained, to, operation.ask_asset_info);
                        if prior + out > u128::MAX {
                            Err(ErrorV::Overflow)
                        } else {
                            Ok(
                                spec_set_balance(
                                    drained,
                                    to,
                                    operation.ask_asset_info,
                                    (prior + out) as u128,
                                ),
                            )
                        }
                    },
                }
            }
        },
        ActionV::AssertMinimumReceive {
            asset_info,
            prev_balance,
            token_in,
            minimum_receive,
            recipient,
        } => {
            match spec_assert_minimum_receive(
                asset_info,
                prev_balance,
                token_in,
                minimum_receive,
                spec_balance(led, recipient, asset_info),
            ) {
                Ok(()) => Ok(led),
                Err(e) => Err(e),
            }
        },
    }
}

/// The queue drained in FIFO order: each action observes every earlier
/// action's writes; the first failure aborts the whole run.
pub open spec fn spec_run(
    led: Seq<BalanceEntryV>,
    actions: Seq<ActionV>,
    contract: Seq<char>,
    qs: Seq<QuoteV>,
) -> Result<Seq<BalanceEntryV>, ErrorV>
    decreases actions.len(),
{
    if actions.len() == 0 {
        Ok(led)
    } else {
        match spec_step(led, actions[0], contract, qs) {
            Ok(led2) => spec_run(led2, actions.skip(1), contract, qs),
            Err(e) => Err(e),
        }
    }
}

/// Plans the action queue for one execution of a validated hop list.
/// `recipient_balance` is the recipient's ask-asset balance snapshot,
/// taken before any hop executes.
pub fn plan_swap_operations(
    operations: &SwapOperationsList,
    minimum_receive: Option<u128>,
    recipient: &String,
    contract_addr: &String,
    recipient_balance: u128,
    token_in: &Asset,
) -> (r: Vec<Action>)
    requires
        operations@.len() > 0,
    ensures
        actions_view(r@) == spec_plan(
            operations@,
            minimum_receive,
            recipient@,
            contract_addr@,
            recipient_balance,
            token_in@,
        ),
{
    let ghost hops = Seq::new(
        operations@.len(),
        |i: int|
            ActionV::ExecuteSwapOperation {
                operation: operations@[i],
                to: if i == operations@.len() - 1 {
                    recipient@
                } else {
                    contract_addr@
                },
            },
    );
    let n = operations.len();
    let mut actions: Vec<Action> = Vec::new();
    let mut i: usize = 0;
    while i < n
        invariant
            i <= n,
            n == operations@.len(),
            hops == Seq::new(
                operations@.len(),
                |k: int|
                    ActionV::ExecuteSwapOperation {
                        operation: operations@[k],
                        to: if k == operations@.len() - 1 {
                            recipient@
                        } else {
                            contract_addr@
                        },
                    },
            ),
            actions@.len() == i,
            forall|j: int| 0 <= j < i ==> actions@[j]@ == hops[j],
        decreases n - i,
    {
        let to = if i == n - 1 {
            recipient.clone()
        } else {
            contract_addr.clone()
        };
        actions.push(Action::ExecuteSwapOperation { operation: operations.get(i).clone(), to });
        i = i + 1;
    }
    if let Some(m) = minimum_receive {
        actions.push(Action::AssertMinimumReceive {
            asset_info: operations.to(),
            prev_balance: recipient_balance,
            token_in: token_in.clone(),
            minimum_receive: m,
            recipient: recipient.clone(),
        });
    }
    proof {
        assert(actions_view(actions@) =~~= spec_plan(
            operations@,
            minimum_receive,
            recipient@,
            contract_addr@,
            recipient_balance,
            token_in@,
        ));
    }
    actions
}

/// The hop decision of one "execute hop" action, given the contract's
/// current balance of the hop's offer asset.
pub enum HopOutcomeV {
    Skip,
    Swap { pool: u64, offer: AssetV, min_out: Option<u128>, to: Seq<char> },
}

/// What one hop action resolves to: nothing, on a zero balance, or one
/// venue swap of the whole balance.
#[derive(Debug)]
pub enum HopOutcome {
    /// The contract holds none of the offer asset: the hop is a no-op
    /// and no venue is called.
    Skip,
    /// Ask the venue to convert the full balance, crediting `to`; no
    /// per-hop minimum is imposed (the chain's guard is the terminal
    /// minimum-receive assertion).
    Swap { pool: u64, offer: Asset, min_out: Option<u128>, to: String },
}

impl View for HopOutcome {
    type V = HopOutcomeV;

    open spec fn view(&self) -> HopOutcomeV {
        match self {
            HopOutcome::Skip => HopOutcomeV::Skip,
            HopOutcome::Swap { pool, offer, min_out, to } => (
                HopOutcomeV::Swap { pool: *pool, offer: offer@, min_out: *min_out, to: to@ }
            ),
        }
    }
}

/// The decision of one hop: reads the contract's current offer-asset
/// balance, not an amount passed down from the caller. A zero balance
/// short-circuits to a no-op; otherwise the whole balance is offered.
pub fn execute_swap_operation(operation: &SwapOperation, offer_balance: u128, to: &String) -> (r:
    HopOutcome)
    ensures
        offer_balance == 0 ==> r@ == HopOutcomeV::Skip,
        offer_balance != 0 ==> r@ == (HopOutcomeV::Swap {
            pool: operation@.pool,
            offer: AssetV { info: operation@.offer_asset_info, amount: offer_balance },
            min_out: None,
            to: to@,
        }),
{
    if offer_balance == 0 {
        HopOutcome::Skip
    } else {
        HopOutcome::Swap {
            pool: operation.pool,
            offer: Asset::new(operation.offer_asset_info.clone(), offer_balance),
            min_out: None,
            to: to.clone(),
        }
    }
}

/// The terminal guard: the received amount is the recipient's current
/// balance minus the pre-execution snapshot; underflow is fatal, and a
/// shortfall fails with wanted and got amounts and the original input.
pub fn assert_minimum_receive(
    asset_info: &AssetInfo,
    prev_balance: u128,
    token_in: &Asset,
    minimum_receive: u128,
    recipient_balance: u128,
) -> (r: Result<(), ContractError>)
    ensures
        (match spec_assert_minimum_receive(
            asset_info@,
            prev_balance,
            token_in@,
            minimum_receive,
            recipient_balance,
        ) {
            Ok(()) => r is Ok,
            Err(ev) => r matches Err(e) && e@ == ev,
        }),
{
    if recipient_balance < prev_balance {
        return Err(ContractError::Overflow);
    }
    let received = recipient_balance - prev_balance;
    if received < minimum_receive {
        return Err(ContractError::FailedMinimumReceive {
            token_in: token_in.clone(),
            wanted: Asset::new(asset_info.clone(), minimum_receive),
            got: Asset::new(asset_info.clone(), received),
        });
    }
    Ok(())
}

/// Continuation actions are privileged: they are accepted only from the
/// contract's own identity.
pub fn assert_callback_sender(sender: &String, contract_addr: &String) -> (r: Result<
    (),
    ContractError,
>)
    ensures
        r is Ok <==> sender@ == contract_addr@,
        r matches Err(e) ==> e@ == ErrorV::Unauthorized,
{
    if *sender == *contract_addr {
        Ok(())
    } else {
        Err(ContractError::Unauthorized)
    }
}

/// Drains an action queue in FIFO order against a copy of the ledger.
/// All-or-nothing: on any failure the error is returned and the caller
/// keeps the untouched input ledger, so no partial multi-hop state is
/// ever observable.
pub fn run_actions(
    ledger: &Ledger,
    actions: &Vec<Action>,
    contract_addr: &String,
    quotes: &PoolQuotes,
) -> (r: Result<Ledger, ContractError>)
    ensures
        (match spec_run(ledger@, actions_view(actions@), contract_addr@, quotes@) {
            Ok(l2) => r matches Ok(l) && l@ == l2,
            Err(ev) => r matches Err(e) && e@ == ev,
        }),
{
    let ghost av = actions_view(actions@);
    let mut cur = ledger.clone_ledger();
    let mut i: usize = 0;
    proof {
        assert(av.skip(0) =~= av);
    }
    while i < actions.len()
        invariant
            i <= actions@.len(),
            av == actions_view(actions@),
            av.len() == actions@.len(),
            spec_run(ledger@, av, contract_addr@, quotes@) == spec_run(
                cur@,
                av.skip(i as int),
                contract_addr@,
                quotes@,
            ),
        decreases actions@.len() - i,
    {
        let a = &actions[i];
        proof {
            assert(av.skip(i as int)[0] == av[i as int]);
            assert(av[i as int] == a@);
        }
        match a {
            Action::ExecuteSwapOperation { operation, to } => {
                let bal = cur.balance_of(contract_addr, &operation.offer_asset_info);
                if bal != 0 {
                    match quotes.lookup(
                        operation.pool,
                        &operation.offer_asset_info,
                        bal,
                        &operation.ask_asset_info,
                    ) {
                        None => {
                            return Err(ContractError::VenueQueryFailed {
                                pool: operation.pool,
                                offer: Asset::new(operation.offer_asset_info.clone(), bal),
                                ask: operation.ask_asset_info.clone(),
                            });
                        },
                        Some(out) => {
                            cur.set_balance(contract_addr, &operation.offer_asset_info, 0);
                            let prior = cur.balance_of(to, &operation.ask_asset_info);
                            if out > u128::MAX - prior {
                                return Err(ContractError::Overflow);
                            }
                            cur.set_balance(to, &operation.ask_asset_info, prior + out);
                        },
                    }
                }
            },
            Action::AssertMinimumReceive {
                asset_info,
                prev_balance,
                token_in,
                minimum_receive,
                recipient,
            } => {
                let now = cur.balance_of(recipient, asset_info);
                match assert_minimum_receive(asset_info, *prev_balance, token_in, *minimum_receive, now) {
                    Ok(()) => {},
                    Err(e) => {
                        return Err(e);
                    },
                }
            },
        }
        proof {
            assert(av.skip(i as int).skip(1) =~= av.skip(i as int + 1));
        }
        i = i + 1;
    }
    proof {
        assert(av.skip(av.len() as int) =~= Seq::<ActionV>::empty());
    }
    Ok(cur)
}

/// The outcome of one whole execution: the queue planned from the hop
/// list — with the recipient's ask-asset balance snapshotted before any
/// hop — drained against the ledger.
pub open spec fn spec_execute(
    led: Seq<BalanceEntryV>,
    ops: Seq<SwapOperationV>,
    minimum_receive: Option<u128>,
    recipient: Seq<char>,
    contract: Seq<char>,
    token_in: AssetV,
    qs: Seq<QuoteV>,
) -> Result<Seq<BalanceEntryV>, ErrorV> {
    spec_run(
        led,
        spec_plan(
            ops,
            minimum_receive,
            recipient,
            contract,
            spec_balance(led, recipient, spec_to(ops)),
            token_in,
        ),
        contract,
        qs,
    )
}

/// Plans and drains the whole chain for a validated hop list:
/// snapshot, one action per hop, then the guard if a threshold was
/// supplied. All-or-nothing as in [`run_actions`].
pub fn execute_swap_operations(
    ledger: &Ledger,
    operations: &SwapOperationsList,
    minimum_receive: Option<u128>,
    recipient: &String,
    contract_addr: &String,
    token_in: &Asset,
    quotes: &PoolQuotes,
) -> (r: Result<Ledger, ContractError>)
    requires
        operations@.len() > 0,
    ensures
        (match spec_execute(
            ledger@,
            operations@,
            minimum_receive,
            recipient@,
            contract_addr@,
            token_in@,
            quotes@,
        ) {
            Ok(l2) => r matches Ok(l) && l@ == l2,
            Err(ev) => r matches Err(e) && e@ == ev,
        }),
{
    let target = operations.to();
    let snapshot = ledger.balance_of(recipient, &target);
    let actions = plan_swap_operations(
        operations,
        minimum_receive,
        recipient,
        contract_addr,
        snapshot,
        token_in,
    );
    run_actions(ledger, &actions, contract_addr, quotes)
}

/// Draining a queue with one more action at its end runs the queue
/// first and then, if it succeeded, the appended action on its result.
pub proof fn lemma_run_push(
    led: Seq<BalanceEntryV>,
    actions: Seq<ActionV>,
    last: ActionV,
    contract: Seq<char>,
    qs: Seq<QuoteV>,
)
    ensures
        spec_run(led, actions.push(last), contract, qs) == (match spec_run(
            led,
            actions,
            contract,
            qs,
        ) {
            Ok(mid) => spec_step(mid, last, contract, qs),
            Err(e) => Err(e),
        }),
    decreases actions.len(),
{
    if actions.len() == 0 {
        assert(actions.push(last)[0] == last);
        assert(actions.push(last).skip(1) =~= Seq::<ActionV>::empty());
        assert(spec_run(led, actions, contract, qs) == Ok::<Seq<BalanceEntryV>, ErrorV>(led));
        match spec_step(led, last, contract, qs) {
            Ok(led2) => {
                assert(spec_run(led2, Seq::<ActionV>::empty(), contract, qs) == Ok::<
                    Seq<BalanceEntryV>,
                    ErrorV,
                >(led2));
            },
            Err(_) => {},
        }
    } else {
        assert(actions.push(last)[0] == actions[0]);
        assert(actions.push(last).skip(1) =~= actions.skip(1).push(last));
        match spec_step(led, actions[0], contract, qs) {
            Ok(led2) => {
                lemma_run_push(led2, actions.skip(1), last, contract, qs);
                assert(spec_run(led, actions, contract, qs) == spec_run(
                    led2,
                    actions.skip(1),
                    contract,
                    qs,
                ));
                assert(spec_run(led, actions.push(last), contract, qs) == spec_run(
                    led2,
                    actions.skip(1).push(last),
                    contract,
                    qs,
                ));
            },
            Err(_) => {},
        }
    }
}

/// Minimum-receive enforcement: a chain planned with threshold T can
/// only complete when the recipient's balance of the declared ask asset
/// rose by at least T over the pre-execution snapshot; the terminal
/// guard inspects the final balance, not any venue's claimed output.
pub proof fn lemma_minimum_receive_enforced(
    led: Seq<BalanceEntryV>,
    ops: Seq<SwapOperationV>,
    threshold: u128,
    recipient: Seq<char>,
    contract: Seq<char>,
    token_in: AssetV,
    qs: Seq<QuoteV>,
    led2: Seq<BalanceEntryV>,
)
    requires
        ops.len() > 0,
        spec_execute(led, ops, Some(threshold), recipient, contract, token_in, qs) == Ok::<
            Seq<BalanceEntryV>,
            ErrorV,
        >(led2),
    ensures
        spec_balance(led2, recipient, spec_to(ops)) >= spec_balance(led, recipient, spec_to(ops))
            + threshold,
{
    let snapshot = spec_balance(led, recipient, spec_to(ops));
    let hops = Seq::new(
        ops.len(),
        |i: int|
            ActionV::ExecuteSwapOperation {
                operation: ops[i],
                to: if i == ops.len() - 1 {
                    recipient
                } else {
                    contract
                },
            },
    );
    let guard = ActionV::AssertMinimumReceive {
        asset_info: spec_to(ops),
        prev_balance: snapshot,
        token_in,
        minimum_receive: threshold,
        recipient,
    };
    assert(spec_plan(ops, Some(threshold), recipient, contract, snapshot, token_in) == hops.push(
        guard,
    ));
    lemma_run_push(led, hops, guard, contract, qs);
}

/// Zero-balance short-circuit: when, at the start of some hop, the
/// contract holds none of that hop's offer asset nor of any later hop's
/// offer asset, the remaining hop actions are no-ops — they change no
/// balance and make no venue call — and the run proceeds directly to the
/// tail of the queue (the minimum-receive check, when one was planned).
pub proof fn lemma_zero_balance_short_circuit(
    led: Seq<BalanceEntryV>,
    hops: Seq<ActionV>,
    tail: Seq<ActionV>,
    contract: Seq<char>,
    qs: Seq<QuoteV>,
)
    requires
        forall|j: int| 0 <= j < hops.len() ==> (#[trigger] hops[j]) is ExecuteSwapOperation,
        forall|j: int|
            0 <= j < hops.len() ==> spec_balance(led, contract, hop_offer(#[trigger] hops[j]))
                == 0,
    ensures
        spec_run(led, hops + tail, contract, qs) == spec_run(led, tail, contract, qs),
    decreases hops.len(),
{
    if hops.len() == 0 {
        assert(hops + tail =~= tail);
    } else {
        assert((hops + tail)[0] == hops[0]);
        assert(spec_step(led, hops[0], contract, qs) == Ok::<Seq<BalanceEntryV>, ErrorV>(led));
        assert((hops + tail).skip(1) =~= hops.skip(1) + tail);
        assert(forall|j: int|
            0 <= j < hops.len() - 1 ==> (#[trigger] hops.skip(1)[j]) == hops[j + 1]);
        lemma_zero_balance_short_circuit(led, hops.skip(1), tail, contract, qs);
    }
}

/// The whole-chain form of the zero-balance short-circuit: when the
/// contract holds none of any hop's offer asset, every hop is a no-op,
/// and the execution is exactly the minimum-receive check on the
/// untouched ledger — which therefore fails unless the threshold is
/// zero or was never supplied.
pub proof fn lemma_zero_balance_chain_reaches_guard(
    led: Seq<BalanceEntryV>,
    ops: Seq<SwapOperationV>,
    minimum_receive: Option<u128>,
    recipient: Seq<char>,
    contract: Seq<char>,
    token_in: AssetV,
    qs: Seq<QuoteV>,
)
    requires
        ops.len() > 0,
        forall|j: int|
            0 <= j < ops.len() ==> spec_balance(led, contract, (#[trigger] ops[j]).offer_asset_info)
                == 0,
    ensures
        (match minimum_receive {
            Some(m) => spec_execute(led, ops, Some(m), recipient, contract, token_in, qs)
                == spec_step(
                led,
                ActionV::AssertMinimumReceive {
                    asset_info: spec_to(ops),
                    prev_balance: spec_balance(led, recipient, spec_to(ops)),
                    token_in,
                    minimum_receive: m,
                    recipient,
                },
                contract,
                qs,
            ),
            None => spec_execute(led, ops, None, recipient, contract, token_in, qs) == Ok::<
                Seq<BalanceEntryV>,
                ErrorV,
            >(led),
        }),
{
    let snapshot = spec_balance(led, recipient, spec_to(ops));
    let hops = Seq::new(
        ops.len(),
        |i: int|
            ActionV::ExecuteSwapOperation {
                operation: ops[i],
                to: if i == ops.len() - 1 {
                    recipient
                } else {
                    contract
                },
            },
    );
    assert(forall|j: int| 0 <= j < hops.len() ==> (#[trigger] hops[j]) is ExecuteSwapOperation);
    assert(forall|j: int|
        0 <= j < hops.len() ==> spec_balance(led, contract, hop_offer(#[trigger] hops[j])) == 0);
    match minimum_receive {
        Some(m) => {
            let guard = ActionV::AssertMinimumReceive {
                asset_info: spec_to(ops),
                prev_balance: snapshot,
                token_in,
                minimum_receive: m,
                recipient,
            };
            assert(spec_plan(ops, Some(m), recipient, contract, snapshot, token_in) =~= hops.push(
                guard,
            ));
            assert(hops.push(guard) =~= hops + seq![guard]);
            lemma_zero_balance_short_circuit(led, hops, seq![guard], contract, qs);
            assert(seq![guard][0] == guard);
            assert(seq![guard].skip(1) =~= Seq::<ActionV>::empty());
            match spec_step(led, guard, contract, qs) {
                Ok(led2) => {
                    assert(spec_run(led2, Seq::<ActionV>::empty(), contract, qs) == Ok::<
                        Seq<BalanceEntryV>,
                        ErrorV,
                    >(led2));
                },
                Err(_) => {},
            }
            assert(spec_run(led, seq![guard], contract, qs) == spec_step(led, guard, contract, qs));
            assert(spec_execute(led, ops, Some(m), recipient, contract, token_in, qs) == spec_run(
                led,
                hops + seq![guard],
                contract,
                qs,
            ));
            assert(spec_execute(led, ops, Some(m), recipient, contract, token_in, qs) == spec_step(
                led,
                guard,
                contract,
                qs,
            ));
        },
        None => {
            assert(spec_plan(ops, None, recipient, contract, snapshot, token_in) =~= hops);
            assert(hops =~= hops + Seq::<ActionV>::empty());
            lemma_zero_balance_short_circuit(led, hops, Seq::<ActionV>::empty(), contract, qs);
            assert(spec_run(led, Seq::<ActionV>::empty(), contract, qs) == Ok::<
                Seq<BalanceEntryV>,
                ErrorV,
            >(led));
            assert(spec_execute(led, ops, None, recipient, contract, token_in, qs) == spec_run(
                led,
                hops + Seq::<ActionV>::empty(),
                contract,
                qs,
            ));
        },
    }
}

/// The offer asset a hop action consumes.
pub open spec fn hop_offer(a: ActionV) -> AssetInfoV {
    match a {
        ActionV::ExecuteSwapOperation { operation, .. } => operation.offer_asset_info,
        _ => arbitrary(),
    }
}

} // verus!
