use cw_dex_router::asset::AssetInfo;
use cw_dex_router::error::ContractError;
use cw_dex_router::operations::{SwapOperation, SwapOperationsListUnchecked};

fn native(denom: &str) -> AssetInfo {
    AssetInfo::Native(denom.to_string())
}

fn hop(pool: u64, offer: &str, ask: &str) -> SwapOperation {
    SwapOperation { pool, offer_asset_info: native(offer), ask_asset_info: native(ask) }
}

#[test]
fn empty_list_is_rejected() {
    let r = SwapOperationsListUnchecked::new(vec![]).check();
    assert!(matches!(r, Err(ContractError::MustProvideOperations)));
}

#[test]
fn unchained_list_is_rejected_with_the_offending_hops() {
    let ops = vec![hop(1, "uatom", "uosmo"), hop(2, "ujuno", "uusdc")];
    let r = SwapOperationsListUnchecked::new(ops).check();
    match r {
        Err(ContractError::InvalidSwapOperations { operations, reason }) => {
            assert_eq!(operations.len(), 2);
            assert_eq!(operations[0], hop(1, "uatom", "uosmo"));
            assert_eq!(reason, "swap operations are not chained".to_string());
        },
        _ => panic!("expected InvalidSwapOperations"),
    }
}

#[test]
fn chained_list_is_accepted_and_keeps_endpoints() {
    let ops = vec![hop(1, "uatom", "uosmo"), hop(2, "uosmo", "uusdc")];
    let list = SwapOperationsListUnchecked::new(ops).check().unwrap();
    assert_eq!(list.len(), 2);
    assert_eq!(list.from(), native("uatom"));
    assert_eq!(list.to(), native("uusdc"));
}

#[test]
fn single_hop_list_is_accepted() {
    let list = SwapOperationsListUnchecked::new(vec![hop(7, "uatom", "uosmo")])
        .check()
        .unwrap();
    assert_eq!(list.len(), 1);
    assert_eq!(list.from(), native("uatom"));
    assert_eq!(list.to(), native("uosmo"));
}

#[test]
fn reverse_swaps_hop_order_and_endpoints() {
    let ops = vec![hop(1, "uatom", "uosmo"), hop(2, "uosmo", "uusdc"), hop(3, "uusdc", "ujuno")];
    let list = SwapOperationsListUnchecked::new(ops).check().unwrap();
    let rev = list.reverse();
    assert_eq!(rev.len(), 3);
    assert_eq!(*rev.get(0), hop(3, "ujuno", "uusdc"));
    assert_eq!(*rev.get(1), hop(2, "uusdc", "uosmo"));
    assert_eq!(*rev.get(2), hop(1, "uosmo", "uatom"));
    assert_eq!(rev.from(), native("ujuno"));
    assert_eq!(rev.to(), native("uatom"));
}

#[test]
fn reverse_twice_restores_the_list() {
    let ops = vec![hop(1, "uatom", "uosmo"), hop(2, "uosmo", "uusdc")];
    let list = SwapOperationsListUnchecked::new(ops).check().unwrap();
    assert!(list.reverse().reverse() == list);
}
