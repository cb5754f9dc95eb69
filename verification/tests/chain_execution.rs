use cw_dex_router::asset::{Asset, AssetInfo};
use cw_dex_router::error::ContractError;
use cw_dex_router::execute::{
    assert_callback_sender, assert_minimum_receive, execute_swap_operation,
    execute_swap_operations, plan_swap_operations, run_actions, Action, HopOutcome,
};
use cw_dex_router::ledger::Ledger;
use cw_dex_router::operations::{SwapOperation, SwapOperationsList, SwapOperationsListUnchecked};
use cw_dex_router::quotes::{PoolQuotes, Quote};

fn native(denom: &str) -> AssetInfo {
    AssetInfo::Native(denom.to_string())
}

fn hop(pool: u64, offer: &str, ask: &str) -> SwapOperation {
    SwapOperation { pool, offer_asset_info: native(offer), ask_asset_info: native(ask) }
}

fn path(hops: Vec<SwapOperation>) -> SwapOperationsList {
    SwapOperationsListUnchecked::new(hops).check().unwrap()
}

fn quote(pool: u64, offer: &str, amount_in: u128, ask: &str, amount_out: u128) -> Quote {
    Quote {
        pool,
        offer: native(offer),
        offer_amount: amount_in,
        ask: native(ask),
        return_amount: amount_out,
    }
}

const ROUTER: &str = "router";
const ALICE: &str = "alice";

#[test]
fn plan_emits_one_action_per_hop_then_the_guard() {
    let ops = path(vec![hop(1, "uatom", "uosmo"), hop(2, "uosmo", "uusdc")]);
    let token_in = Asset::new(native("uatom"), 1000);
    let actions = plan_swap_operations(
        &ops,
        Some(95),
        &ALICE.to_string(),
        &ROUTER.to_string(),
        7,
        &token_in,
    );
    assert_eq!(actions.len(), 3);
    match &actions[0] {
        Action::ExecuteSwapOperation { operation, to } => {
            assert_eq!(*operation, hop(1, "uatom", "uosmo"));
            assert_eq!(to, ROUTER);
        },
        _ => panic!("expected a hop action"),
    }
    match &actions[1] {
        Action::ExecuteSwapOperation { operation, to } => {
            assert_eq!(*operation, hop(2, "uosmo", "uusdc"));
            assert_eq!(to, ALICE);
        },
        _ => panic!("expected a hop action"),
    }
    match &actions[2] {
        Action::AssertMinimumReceive {
            asset_info,
            prev_balance,
            token_in: carried,
            minimum_receive,
            recipient,
        } => {
            assert_eq!(*asset_info, native("uusdc"));
            assert_eq!(*prev_balance, 7);
            assert_eq!(*carried, Asset::new(native("uatom"), 1000));
            assert_eq!(*minimum_receive, 95);
            assert_eq!(recipient, ALICE);
        },
        _ => panic!("expected the guard action"),
    }
}

#[test]
fn plan_without_threshold_has_no_guard() {
    let ops = path(vec![hop(1, "uatom", "uosmo")]);
    let token_in = Asset::new(native("uatom"), 1000);
    let actions =
        plan_swap_operations(&ops, None, &ALICE.to_string(), &ROUTER.to_string(), 0, &token_in);
    assert_eq!(actions.len(), 1);
}

#[test]
fn hop_decision_short_circuits_on_zero_balance() {
    let op = hop(1, "uatom", "uosmo");
    assert!(matches!(execute_swap_operation(&op, 0, &ALICE.to_string()), HopOutcome::Skip));
    match execute_swap_operation(&op, 400, &ALICE.to_string()) {
        HopOutcome::Swap { pool, offer, min_out, to } => {
            assert_eq!(pool, 1);
            assert_eq!(offer, Asset::new(native("uatom"), 400));
            assert_eq!(min_out, None);
            assert_eq!(to, ALICE);
        },
        HopOutcome::Skip => panic!("expected a swap"),
    }
}

fn funded_ledger(amount: u128) -> Ledger {
    let mut ledger = Ledger::new();
    ledger.set_balance(&ROUTER.to_string(), &native("uatom"), amount);
    ledger
}

fn two_hop_setup() -> (SwapOperationsList, PoolQuotes) {
    let ops = path(vec![hop(1, "uatom", "uosmo"), hop(2, "uosmo", "uusdc")]);
    let quotes = PoolQuotes {
        quotes: vec![
            quote(1, "uatom", 1000, "uosmo", 2500),
            quote(2, "uosmo", 2500, "uusdc", 95),
        ],
    };
    (ops, quotes)
}

#[test]
fn chain_succeeds_when_exactly_the_threshold_arrives() {
    let (ops, quotes) = two_hop_setup();
    let ledger = funded_ledger(1000);
    let token_in = Asset::new(native("uatom"), 1000);
    let after = execute_swap_operations(
        &ledger,
        &ops,
        Some(95),
        &ALICE.to_string(),
        &ROUTER.to_string(),
        &token_in,
        &quotes,
    )
    .unwrap();
    assert_eq!(after.balance_of(&ALICE.to_string(), &native("uusdc")), 95);
    assert_eq!(after.balance_of(&ROUTER.to_string(), &native("uatom")), 0);
    assert_eq!(after.balance_of(&ROUTER.to_string(), &native("uosmo")), 0);
}

#[test]
fn chain_fails_one_below_the_threshold_with_wanted_and_got() {
    let (ops, quotes) = two_hop_setup();
    let ledger = funded_ledger(1000);
    let token_in = Asset::new(native("uatom"), 1000);
    let r = execute_swap_operations(
        &ledger,
        &ops,
        Some(96),
        &ALICE.to_string(),
        &ROUTER.to_string(),
        &token_in,
        &quotes,
    );
    match r {
        Err(ContractError::FailedMinimumReceive { token_in: carried, wanted, got }) => {
            assert_eq!(carried, Asset::new(native("uatom"), 1000));
            assert_eq!(wanted, Asset::new(native("uusdc"), 96));
            assert_eq!(got, Asset::new(native("uusdc"), 95));
        },
        _ => panic!("expected FailedMinimumReceive"),
    }
    // The caller's ledger is untouched: the whole chain is all-or-nothing.
    assert_eq!(ledger.balance_of(&ROUTER.to_string(), &native("uatom")), 1000);
    assert_eq!(ledger.balance_of(&ALICE.to_string(), &native("uusdc")), 0);
}

#[test]
fn zero_balance_hops_run_as_no_ops_into_the_guard() {
    let (ops, quotes) = two_hop_setup();
    let ledger = Ledger::new();
    let token_in = Asset::new(native("uatom"), 0);
    // No venue quote is consulted: the hops are no-ops, and the guard
    // sees an unchanged recipient balance.
    let r = execute_swap_operations(
        &ledger,
        &ops,
        Some(1),
        &ALICE.to_string(),
        &ROUTER.to_string(),
        &token_in,
        &quotes,
    );
    match r {
        Err(ContractError::FailedMinimumReceive { wanted, got, .. }) => {
            assert_eq!(wanted.amount, 1);
            assert_eq!(got.amount, 0);
        },
        _ => panic!("expected FailedMinimumReceive"),
    }
    // With a zero threshold the empty run passes and changes nothing.
    let after = execute_swap_operations(
        &ledger,
        &ops,
        Some(0),
        &ALICE.to_string(),
        &ROUTER.to_string(),
        &token_in,
        &quotes,
    )
    .unwrap();
    assert_eq!(after.balance_of(&ROUTER.to_string(), &native("uatom")), 0);
    assert_eq!(after.balance_of(&ALICE.to_string(), &native("uusdc")), 0);
}

#[test]
fn unquoted_hop_aborts_the_chain() {
    let ops = path(vec![hop(1, "uatom", "uosmo")]);
    let quotes = PoolQuotes::new();
    let ledger = funded_ledger(1000);
    let token_in = Asset::new(native("uatom"), 1000);
    let r = execute_swap_operations(
        &ledger,
        &ops,
        None,
        &ALICE.to_string(),
        &ROUTER.to_string(),
        &token_in,
        &quotes,
    );
    match r {
        Err(ContractError::VenueQueryFailed { pool, offer, ask }) => {
            assert_eq!(pool, 1);
            assert_eq!(offer, Asset::new(native("uatom"), 1000));
            assert_eq!(ask, native("uosmo"));
        },
        _ => panic!("expected VenueQueryFailed"),
    }
}

#[test]
fn crediting_past_the_maximum_is_a_fatal_overflow() {
    let ops = path(vec![hop(1, "uatom", "uosmo")]);
    let quotes = PoolQuotes { quotes: vec![quote(1, "uatom", 1, "uosmo", 1)] };
    let mut ledger = funded_ledger(1);
    ledger.set_balance(&ALICE.to_string(), &native("uosmo"), u128::MAX);
    let token_in = Asset::new(native("uatom"), 1);
    let r = execute_swap_operations(
        &ledger,
        &ops,
        None,
        &ALICE.to_string(),
        &ROUTER.to_string(),
        &token_in,
        &quotes,
    );
    assert!(matches!(r, Err(ContractError::Overflow)));
}

#[test]
fn guard_underflow_is_a_fatal_overflow_error() {
    let r = assert_minimum_receive(&native("uusdc"), 10, &Asset::new(native("uatom"), 5), 1, 9);
    assert!(matches!(r, Err(ContractError::Overflow)));
}

#[test]
fn guard_passes_at_and_above_the_threshold() {
    let token_in = Asset::new(native("uatom"), 5);
    assert!(assert_minimum_receive(&native("uusdc"), 10, &token_in, 7, 17).is_ok());
    assert!(assert_minimum_receive(&native("uusdc"), 10, &token_in, 7, 18).is_ok());
    match assert_minimum_receive(&native("uusdc"), 10, &token_in, 7, 16) {
        Err(ContractError::FailedMinimumReceive { wanted, got, .. }) => {
            assert_eq!(wanted, Asset::new(native("uusdc"), 7));
            assert_eq!(got, Asset::new(native("uusdc"), 6));
        },
        _ => panic!("expected FailedMinimumReceive"),
    }
}

#[test]
fn callbacks_are_accepted_only_from_the_contract_itself() {
    assert!(assert_callback_sender(&ROUTER.to_string(), &ROUTER.to_string()).is_ok());
    let r = assert_callback_sender(&ALICE.to_string(), &ROUTER.to_string());
    assert!(matches!(r, Err(ContractError::Unauthorized)));
}

#[test]
fn run_actions_drains_the_queue_in_order() {
    let ops = path(vec![hop(1, "uatom", "uosmo"), hop(2, "uosmo", "uusdc")]);
    let quotes = PoolQuotes {
        quotes: vec![
            quote(1, "uatom", 50, "uosmo", 60),
            quote(2, "uosmo", 60, "uusdc", 70),
        ],
    };
    let ledger = funded_ledger(50);
    let token_in = Asset::new(native("uatom"), 50);
    let actions = plan_swap_operations(
        &ops,
        None,
        &ALICE.to_string(),
        &ROUTER.to_string(),
        0,
        &token_in,
    );
    let after = run_actions(&ledger, &actions, &ROUTER.to_string(), &quotes).unwrap();
    // The intermediate hop credited the contract, the last the recipient.
    assert_eq!(after.balance_of(&ROUTER.to_string(), &native("uosmo")), 0);
    assert_eq!(after.balance_of(&ALICE.to_string(), &native("uusdc")), 70);
}
