//! The asset model: a tagged identifier for a fungible asset and a
//! concrete quantity of one.

use vstd::prelude::*;

verus! {

/// Spec-level image of an [`AssetInfo`]: the identifying string as a
/// sequence of characters.
#[verifier::ext_equal]
pub enum AssetInfoV {
    Native { denom: Seq<char> },
    Cw20 { contract_addr: Seq<char> },
}

/// Identifies a fungible asset: a ledger-native coin by its denomination,
/// or a contract-administered token by the administering contract's
/// address. Equality is structural.
#[derive(Debug)]
pub enum AssetInfo {
    Native(String),
    Cw20(String),
}

impl View for AssetInfo {
    type V = AssetInfoV;

    open spec fn view(&self) -> AssetInfoV {
        match self {
            AssetInfo::Native(denom) => AssetInfoV::Native { denom: denom@ },
            AssetInfo::Cw20(addr) => AssetInfoV::Cw20 { contract_addr: addr@ },
        }
    }
}

impl Clone for AssetInfo {
    fn clone(&self) -> (res: Self)
        ensures
            res@ == self@,
    {
        match self {
            AssetInfo::Native(denom) => AssetInfo::Native(denom.clone()),
            AssetInfo::Cw20(addr) => AssetInfo::Cw20(addr.clone()),
        }
    }
}

impl PartialEq for AssetInfo {
    fn eq(&self, other: &Self) -> (r: bool) {
        match (self, other) {
            (AssetInfo::Native(a), AssetInfo::Native(b)) => *a == *b,
            (AssetInfo::Cw20(a), AssetInfo::Cw20(b)) => *a == *b,
            _ => false,
        }
    }
}

impl vstd::std_specs::cmp::PartialEqSpecImpl for AssetInfo {
    open spec fn obeys_eq_spec() -> bool {
        true
    }

    open spec fn eq_spec(&self, other: &Self) -> bool {
        self@ == other@
    }
}

/// Spec-level image of an [`Asset`].
#[verifier::ext_equal]
pub struct AssetV {
    pub info: AssetInfoV,
    pub amount: u128,
}

/// A concrete quantity of an asset; the amount is never negative.
#[derive(Debug)]
pub struct Asset {
    pub info: AssetInfo,
    pub amount: u128,
}

impl View for Asset {
    type V = AssetV;

    open spec fn view(&self) -> AssetV {
        AssetV { info: self.info@, amount: self.amount }
    }
}

impl Clone for Asset {
    fn clone(&self) -> (res: Self)
        ensures
            res@ == self@,
    {
        Asset { info: self.info.clone(), amount: self.amount }
    }
}

impl PartialEq for Asset {
    fn eq(&self, other: &Self) -> (r: bool) {
        self.info == other.info && self.amount == other.amount
    }
}

impl vstd::std_specs::cmp::PartialEqSpecImpl for Asset {
    open spec fn obeys_eq_spec() -> bool {
        true
    }

    open spec fn eq_spec(&self, other: &Self) -> bool {
        self@ == other@
    }
}

impl Asset {
    /// Pairs an asset identifier with a quantity.
    pub fn new(info: AssetInfo, amount: u128) -> (r: Asset)
        ensures
            r@ == (AssetV { info: info@, amount }),
    {
        Asset { info, amount }
    }
}

} // verus!
