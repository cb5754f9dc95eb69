use cw_dex_router::asset::AssetInfo;
use cw_dex_router::error::ContractError;
use cw_dex_router::operations::{SwapOperation, SwapOperationsListUnchecked};
use cw_dex_router::quotes::{PoolQuotes, Quote};
use cw_dex_router::registry::PathRegistry;
use cw_dex_router::simulate::{query_best_path_for_pair, simulate_swap_operations};

fn native(denom: &str) -> AssetInfo {
    AssetInfo::Native(denom.to_string())
}

fn hop(pool: u64, offer: &str, ask: &str) -> SwapOperation {
    SwapOperation { pool, offer_asset_info: native(offer), ask_asset_info: native(ask) }
}

fn quote(pool: u64, offer: &str, amount_in: u128, ask: &str, amount_out: u128) -> Quote {
    Quote {
        pool,
        offer: native(offer),
        offer_amount: amount_in,
        ask: native(ask),
        return_amount: amount_out,
    }
}

#[test]
fn simulate_folds_the_amount_through_every_hop() {
    let quotes = PoolQuotes {
        quotes: vec![
            quote(1, "uatom", 1000, "uosmo", 2500),
            quote(2, "uosmo", 2500, "uusdc", 90),
        ],
    };
    let ops = SwapOperationsListUnchecked::new(vec![
        hop(1, "uatom", "uosmo"),
        hop(2, "uosmo", "uusdc"),
    ]);
    assert_eq!(simulate_swap_operations(1000, ops, &quotes).unwrap(), 90);
}

#[test]
fn simulate_rejects_an_empty_list() {
    let quotes = PoolQuotes::new();
    let r = simulate_swap_operations(1000, SwapOperationsListUnchecked::new(vec![]), &quotes);
    assert!(matches!(r, Err(ContractError::MustProvideOperations)));
}

#[test]
fn simulate_reports_the_first_unquoted_hop() {
    let quotes = PoolQuotes { quotes: vec![quote(1, "uatom", 1000, "uosmo", 2500)] };
    let ops = SwapOperationsListUnchecked::new(vec![
        hop(1, "uatom", "uosmo"),
        hop(2, "uosmo", "uusdc"),
    ]);
    match simulate_swap_operations(1000, ops, &quotes) {
        Err(ContractError::VenueQueryFailed { pool, offer, ask }) => {
            assert_eq!(pool, 2);
            assert_eq!(offer.info, native("uosmo"));
            assert_eq!(offer.amount, 2500);
            assert_eq!(ask, native("uusdc"));
        },
        _ => panic!("expected VenueQueryFailed"),
    }
}

#[test]
fn simulate_is_pure_across_repeated_calls() {
    let quotes = PoolQuotes { quotes: vec![quote(1, "uatom", 7, "uosmo", 11)] };
    let ops1 = SwapOperationsListUnchecked::new(vec![hop(1, "uatom", "uosmo")]);
    let ops2 = SwapOperationsListUnchecked::new(vec![hop(1, "uatom", "uosmo")]);
    let first = simulate_swap_operations(7, ops1, &quotes).unwrap();
    let second = simulate_swap_operations(7, ops2, &quotes).unwrap();
    assert_eq!(first, second);
    assert_eq!(first, 11);
}

fn three_path_setup() -> (PathRegistry, PoolQuotes) {
    let admin = "operator".to_string();
    let mut reg = PathRegistry::new(Some(admin.clone()));
    for pool in [1u64, 2, 3] {
        let p = SwapOperationsListUnchecked::new(vec![hop(pool, "uatom", "uusdc")])
            .check()
            .unwrap();
        reg.set_path(&admin, &native("uatom"), &native("uusdc"), p, false).unwrap();
    }
    // Paths with ids 1, 2, 3 quote 90, 110 and 100 for the same offer.
    let quotes = PoolQuotes {
        quotes: vec![
            quote(1, "uatom", 1000, "uusdc", 90),
            quote(2, "uatom", 1000, "uusdc", 110),
            quote(3, "uatom", 1000, "uusdc", 100),
        ],
    };
    (reg, quotes)
}

#[test]
fn best_path_picks_the_greatest_output() {
    let (reg, quotes) = three_path_setup();
    let best = query_best_path_for_pair(&reg, 1000, &native("uatom"), &native("uusdc"), None, &quotes)
        .unwrap();
    assert_eq!(best.return_amount, 110);
    assert_eq!(*best.operations.get(0), hop(2, "uatom", "uusdc"));
}

#[test]
fn excluding_the_winner_promotes_the_runner_up() {
    let (reg, quotes) = three_path_setup();
    let best = query_best_path_for_pair(
        &reg,
        1000,
        &native("uatom"),
        &native("uusdc"),
        Some(vec![2]),
        &quotes,
    )
    .unwrap();
    assert_eq!(best.return_amount, 100);
    assert_eq!(*best.operations.get(0), hop(3, "uatom", "uusdc"));
}

#[test]
fn excluding_every_path_fails_with_no_paths_to_check() {
    let (reg, quotes) = three_path_setup();
    let r = query_best_path_for_pair(
        &reg,
        1000,
        &native("uatom"),
        &native("uusdc"),
        Some(vec![1, 2, 3]),
        &quotes,
    );
    assert!(matches!(r, Err(ContractError::NoPathsToCheck)));
}

#[test]
fn best_path_on_unregistered_pair_fails_with_no_path_found() {
    let (reg, quotes) = three_path_setup();
    let r = query_best_path_for_pair(&reg, 1000, &native("ujuno"), &native("uusdc"), None, &quotes);
    assert!(matches!(r, Err(ContractError::NoPathFound { .. })));
}

#[test]
fn ties_go_to_the_first_registered_path() {
    let admin = "operator".to_string();
    let mut reg = PathRegistry::new(Some(admin.clone()));
    for pool in [1u64, 2] {
        let p = SwapOperationsListUnchecked::new(vec![hop(pool, "uatom", "uusdc")])
            .check()
            .unwrap();
        reg.set_path(&admin, &native("uatom"), &native("uusdc"), p, false).unwrap();
    }
    let quotes = PoolQuotes {
        quotes: vec![
            quote(1, "uatom", 500, "uusdc", 42),
            quote(2, "uatom", 500, "uusdc", 42),
        ],
    };
    let best = query_best_path_for_pair(&reg, 500, &native("uatom"), &native("uusdc"), None, &quotes)
        .unwrap();
    assert_eq!(best.return_amount, 42);
    assert_eq!(*best.operations.get(0), hop(1, "uatom", "uusdc"));
}
