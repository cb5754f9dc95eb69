use cw_dex_router::asset::AssetInfo;
use cw_dex_router::error::ContractError;
use cw_dex_router::operations::{SwapOperation, SwapOperationsList, SwapOperationsListUnchecked};
use cw_dex_router::registry::PathRegistry;

fn native(denom: &str) -> AssetInfo {
    AssetInfo::Native(denom.to_string())
}

fn hop(pool: u64, offer: &str, ask: &str) -> SwapOperation {
    SwapOperation { pool, offer_asset_info: native(offer), ask_asset_info: native(ask) }
}

fn path(hops: Vec<SwapOperation>) -> SwapOperationsList {
    SwapOperationsListUnchecked::new(hops).check().unwrap()
}

fn admin_registry() -> (PathRegistry, String) {
    let admin = "operator".to_string();
    (PathRegistry::new(Some(admin.clone())), admin)
}

#[test]
fn non_admin_cannot_register() {
    let (mut reg, _) = admin_registry();
    let r = reg.set_path(
        &"mallory".to_string(),
        &native("uatom"),
        &native("uosmo"),
        path(vec![hop(1, "uatom", "uosmo")]),
        false,
    );
    assert!(matches!(r, Err(ContractError::Unauthorized)));
    assert!(reg.list(&native("uatom"), &native("uosmo")).is_err());
}

#[test]
fn mismatched_endpoints_are_rejected() {
    let (mut reg, admin) = admin_registry();
    let r = reg.set_path(
        &admin,
        &native("uatom"),
        &native("ujuno"),
        path(vec![hop(1, "uatom", "uosmo")]),
        false,
    );
    match r {
        Err(ContractError::InvalidSwapOperations { operations, reason }) => {
            assert_eq!(operations, vec![hop(1, "uatom", "uosmo")]);
            assert_eq!(reason, "the path does not match the offer and ask assets".to_string());
        },
        _ => panic!("expected InvalidSwapOperations"),
    }
}

#[test]
fn list_on_unregistered_pair_fails_with_no_path_found() {
    let (reg, _) = admin_registry();
    match reg.list(&native("uatom"), &native("uosmo")) {
        Err(ContractError::NoPathFound { offer, ask }) => {
            assert_eq!(offer, native("uatom"));
            assert_eq!(ask, native("uosmo"));
        },
        _ => panic!("expected NoPathFound"),
    }
}

#[test]
fn first_registration_gets_id_one() {
    let (mut reg, admin) = admin_registry();
    let p = path(vec![hop(1, "uatom", "uosmo")]);
    reg.set_path(&admin, &native("uatom"), &native("uosmo"), p.clone(), false).unwrap();
    let listed = reg.list(&native("uatom"), &native("uosmo")).unwrap();
    assert_eq!(listed.len(), 1);
    assert_eq!(listed[0].0, 1);
    assert!(listed[0].1 == p);
}

#[test]
fn ids_increase_per_pair_starting_at_one() {
    let (mut reg, admin) = admin_registry();
    for pool in 1..=3u64 {
        reg.set_path(
            &admin,
            &native("uatom"),
            &native("uosmo"),
            path(vec![hop(pool, "uatom", "uosmo")]),
            false,
        )
        .unwrap();
    }
    // An unrelated pair keeps its own counter.
    reg.set_path(
        &admin,
        &native("ujuno"),
        &native("uusdc"),
        path(vec![hop(9, "ujuno", "uusdc")]),
        false,
    )
    .unwrap();
    let listed = reg.list(&native("uatom"), &native("uosmo")).unwrap();
    let ids: Vec<u64> = listed.iter().map(|(id, _)| *id).collect();
    assert_eq!(ids, vec![1, 2, 3]);
    let other = reg.list(&native("ujuno"), &native("uusdc")).unwrap();
    assert_eq!(other[0].0, 1);
}

#[test]
fn duplicate_path_contents_coexist_under_different_ids() {
    let (mut reg, admin) = admin_registry();
    let p = path(vec![hop(1, "uatom", "uosmo")]);
    reg.set_path(&admin, &native("uatom"), &native("uosmo"), p.clone(), false).unwrap();
    reg.set_path(&admin, &native("uatom"), &native("uosmo"), p.clone(), false).unwrap();
    let listed = reg.list(&native("uatom"), &native("uosmo")).unwrap();
    assert_eq!(listed.len(), 2);
    assert_eq!(listed[0].0, 1);
    assert_eq!(listed[1].0, 2);
    assert!(listed[0].1 == listed[1].1);
}

#[test]
fn bidirectional_registration_stores_the_reverse_path() {
    let (mut reg, admin) = admin_registry();
    let p = path(vec![hop(1, "uatom", "uosmo"), hop(2, "uosmo", "uusdc")]);
    reg.set_path(&admin, &native("uatom"), &native("uusdc"), p.clone(), true).unwrap();

    let forward = reg.list(&native("uatom"), &native("uusdc")).unwrap();
    assert_eq!(forward.len(), 1);
    assert!(forward[0].1 == p);

    let backward = reg.list(&native("uusdc"), &native("uatom")).unwrap();
    assert_eq!(backward.len(), 1);
    assert_eq!(backward[0].0, 1);
    let mirror = &backward[0].1;
    assert_eq!(mirror.len(), 2);
    assert_eq!(*mirror.get(0), hop(2, "uusdc", "uosmo"));
    assert_eq!(*mirror.get(1), hop(1, "uosmo", "uatom"));
}

#[test]
fn supported_assets_scan_distinct_matches() {
    let (mut reg, admin) = admin_registry();
    reg.set_path(
        &admin,
        &native("uatom"),
        &native("uusdc"),
        path(vec![hop(1, "uatom", "uusdc")]),
        false,
    )
    .unwrap();
    reg.set_path(
        &admin,
        &native("uatom"),
        &native("uusdc"),
        path(vec![hop(2, "uatom", "uusdc")]),
        false,
    )
    .unwrap();
    reg.set_path(
        &admin,
        &native("ujuno"),
        &native("uusdc"),
        path(vec![hop(3, "ujuno", "uusdc")]),
        false,
    )
    .unwrap();

    let offers = reg.supported_offer_assets(&native("uusdc"));
    assert_eq!(offers.len(), 2);
    assert!(offers.contains(&native("uatom")));
    assert!(offers.contains(&native("ujuno")));

    let asks = reg.supported_ask_assets(&native("uatom"));
    assert_eq!(asks, vec![native("uusdc")]);

    assert!(reg.supported_offer_assets(&native("uatom")).is_empty());
}

#[test]
fn registry_round_trips_through_its_parts() {
    let (mut reg, admin) = admin_registry();
    let p = path(vec![hop(1, "uatom", "uosmo")]);
    reg.set_path(&admin, &native("uatom"), &native("uosmo"), p.clone(), false).unwrap();

    let entries: Vec<_> = reg
        .entries()
        .iter()
        .map(|e| cw_dex_router::registry::PathEntry {
            offer: e.offer.clone(),
            ask: e.ask.clone(),
            id: e.id,
            path: e.path.clone(),
        })
        .collect();
    let rebuilt = PathRegistry::from_parts(reg.admin().clone(), entries);
    let listed = rebuilt.list(&native("uatom"), &native("uosmo")).unwrap();
    assert_eq!(listed.len(), 1);
    assert_eq!(listed[0].0, 1);
    assert!(listed[0].1 == p);
}
