//! Client-side helpers: a typed handle on a deployed router, and the
//! check that declared native funds were actually attached to a call.

use vstd::prelude::*;
use crate::asset::Asset;
use crate::error::{ContractError, ErrorV};

verus! {

/// A handle on a deployed router, parameterized by how the router's
/// address is represented (a raw string before validation, a checked
/// address after).
#[derive(Debug)]
pub struct CwDexRouterBase<T>(pub T);

/// A router handle whose address has not been validated yet.
pub type CwDexRouterUnchecked = CwDexRouterBase<String>;

impl CwDexRouterUnchecked {
    /// Wraps a raw router address.
    pub fn new(addr: String) -> (r: Self)
        ensures
            r.0@ == addr@,
    {
        CwDexRouterBase(addr)
    }
}

/// Asserts that a specific native token, in the given amount, stands
/// among the funds attached to the call. A token that is not native was
/// certainly not attached as native funds.
pub fn assert_native_token_received(funds: &Vec<Asset>, asset: &Asset) -> (r: Result<
    (),
    ContractError,
>)
    ensures
        r is Ok <==> (asset@.info is Native && (exists|i: int|
            0 <= i < funds@.len() && (#[trigger] funds@[i])@ == asset@)),
        r matches Err(e) ==> e@ == (ErrorV::NativeTokenNotReceived { expected: asset@ }),
{
    match &asset.info {
        crate::asset::AssetInfo::Cw20(_) => {
            return Err(ContractError::NativeTokenNotReceived { expected: asset.clone() });
        },
        crate::asset::AssetInfo::Native(_) => {},
    }
    let mut i: usize = 0;
    while i < funds.len()
        invariant
            i <= funds@.len(),
            asset@.info is Native,
            forall|j: int| 0 <= j < i ==> (#[trigger] funds@[j])@ != asset@,
        decreases funds@.len() - i,
    {
        if funds[i] == *asset {
            proof {
                assert(funds@[i as int]@ == asset@);
            }
            return Ok(());
        }
        i = i + 1;
    }
    Err(ContractError::NativeTokenNotReceived { expected: asset.clone() })
}

} // verus!
