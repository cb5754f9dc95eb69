//! Hops and hop lists: one atomic conversion step through a single venue,
//! and ordered sequences of such steps connecting an offer asset to an
//! ask asset.

use vstd::prelude::*;
use vstd::string::StringExecFns;
use crate::asset::{AssetInfo, AssetInfoV};
use crate::error::{ContractError, ErrorV};

verus! {

/// Spec-level image of a [`SwapOperation`].
#[verifier::ext_equal]
pub struct SwapOperationV {
    pub pool: u64,
    pub offer_asset_info: AssetInfoV,
    pub ask_asset_info: AssetInfoV,
}

/// One hop: a conversion of the offer asset into the ask asset through
/// the venue standing behind the pool handle.
#[derive(Debug)]
pub struct SwapOperation {
    /// Opaque handle of the venue that quotes and executes this hop.
    pub pool: u64,
    pub offer_asset_info: AssetInfo,
    pub ask_asset_info: AssetInfo,
}

impl View for SwapOperation {
    type V = SwapOperationV;

    open spec fn view(&self) -> SwapOperationV {
        SwapOperationV {
            pool: self.pool,
            offer_asset_info: self.offer_asset_info@,
            ask_asset_info: self.ask_asset_info@,
        }
    }
}

impl Clone for SwapOperation {
    fn clone(&self) -> (res: Self)
        ensures
            res@ == self@,
    {
        SwapOperation {
            pool: self.pool,
            offer_asset_info: self.offer_asset_info.clone(),
            ask_asset_info: self.ask_asset_info.clone(),
        }
    }
}

impl PartialEq for SwapOperation {
    fn eq(&self, other: &Self) -> (r: bool) {
        self.pool == other.pool && self.offer_asset_info == other.offer_asset_info
            && self.ask_asset_info == other.ask_asset_info
    }
}

impl vstd::std_specs::cmp::PartialEqSpecImpl for SwapOperation {
    open spec fn obeys_eq_spec() -> bool {
        true
    }

    open spec fn eq_spec(&self, other: &Self) -> bool {
        self@ == other@
    }
}

/// The same hop with its endpoints exchanged.
pub open spec fn swap_ends(op: SwapOperationV) -> SwapOperationV {
    SwapOperationV {
        pool: op.pool,
        offer_asset_info: op.ask_asset_info,
        ask_asset_info: op.offer_asset_info,
    }
}

/// Every adjacent pair of hops agrees: what one hop produces is what the
/// next hop consumes.
pub open spec fn ops_chained(ops: Seq<SwapOperationV>) -> bool {
    forall|i: int|
        0 <= i && i + 1 < ops.len() ==> ops[i].ask_asset_info == ops[i + 1].offer_asset_info
}

/// The invariant of a checked hop list: non-empty and chained.
pub open spec fn valid_ops(ops: Seq<SwapOperationV>) -> bool {
    ops.len() > 0 && ops_chained(ops)
}

/// The declared offer asset of a hop list: the first hop's offer side.
pub open spec fn spec_from(ops: Seq<SwapOperationV>) -> AssetInfoV {
    ops.first().offer_asset_info
}

/// The declared ask asset of a hop list: the last hop's ask side.
pub open spec fn spec_to(ops: Seq<SwapOperationV>) -> AssetInfoV {
    ops.last().ask_asset_info
}

/// Reversal as a labeling transform: hops in reverse order, each with its
/// endpoints exchanged. It does not claim that any venue supports the
/// reverse direction.
pub open spec fn spec_reverse_ops(ops: Seq<SwapOperationV>) -> Seq<SwapOperationV> {
    Seq::new(ops.len(), |i: int| swap_ends(ops[ops.len() - 1 - i]))
}

/// The spec-level image of a vector of hops.
pub open spec fn ops_seq_view(s: Seq<SwapOperation>) -> Seq<SwapOperationV> {
    Seq::new(s.len(), |i: int| s[i]@)
}

/// A hop list as supplied by a caller, before validation.
#[derive(Debug)]
pub struct SwapOperationsListUnchecked(pub Vec<SwapOperation>);

impl View for SwapOperationsListUnchecked {
    type V = Seq<SwapOperationV>;

    open spec fn view(&self) -> Seq<SwapOperationV> {
        ops_seq_view(self.0@)
    }
}

/// A validated hop list: non-empty, with every adjacent pair of hops
/// chained. Values of this type are only produced by
/// [`SwapOperationsListUnchecked::check`] and by operations that
/// preserve the invariant.
#[derive(Debug)]
pub struct SwapOperationsList {
    ops: Vec<SwapOperation>,
}

impl View for SwapOperationsList {
    type V = Seq<SwapOperationV>;

    closed spec fn view(&self) -> Seq<SwapOperationV> {
        ops_seq_view(self.ops@)
    }
}

impl SwapOperationsListUnchecked {
    /// Wraps hops for later validation.
    pub fn new(operations: Vec<SwapOperation>) -> (r: Self)
        ensures
            r@ == ops_seq_view(operations@),
    {
        SwapOperationsListUnchecked(operations)
    }

    /// Validates the hop list: it must be non-empty and chained.
    /// Succeeds exactly on valid lists and hands back the same hops.
    pub fn check(self) -> (r: Result<SwapOperationsList, ContractError>)
        ensures
            r is Ok <==> valid_ops(self@),
            r matches Ok(list) ==> list@ == self@,
            self@.len() == 0 ==> (r matches Err(e) && e@ == ErrorV::MustProvideOperations),
            self@.len() > 0 && !ops_chained(self@) ==> (r matches Err(e) && e@ == (
            ErrorV::InvalidSwapOperations {
                operations: self@,
                reason: "swap operations are not chained"@,
            })),
    {
        if self.0.len() == 0 {
            return Err(ContractError::MustProvideOperations);
        }
        let mut i: usize = 1;
        while i < self.0.len()
            invariant
                1 <= i <= self.0@.len(),
                forall|j: int|
                    0 <= j && j + 1 < i ==> self@[j].ask_asset_info == self@[j + 1].offer_asset_info,
            decreases self.0@.len() - i,
        {
            if !(self.0[i - 1].ask_asset_info == self.0[i].offer_asset_info) {
                proof {
                    assert(self@[i - 1].ask_asset_info != self@[i as int].offer_asset_info);
                    assert(!ops_chained(self@));
                }
                return Err(ContractError::InvalidSwapOperations {
                    operations: self.0,
                    reason: String::from_str("swap operations are not chained"),
                });
            }
            i = i + 1;
        }
        Ok(SwapOperationsList { ops: self.0 })
    }
}

impl SwapOperationsList {
    /// The number of hops.
    pub fn len(&self) -> (r: usize)
        ensures
            r == self@.len(),
    {
        self.ops.len()
    }

    /// The hop at the given position.
    pub fn get(&self, i: usize) -> (r: &SwapOperation)
        requires
            i < self@.len(),
        ensures
            r@ == self@[i as int],
    {
        &self.ops[i]
    }

    /// The declared offer asset: the first hop's offer side.
    pub fn from(&self) -> (r: AssetInfo)
        requires
            self@.len() > 0,
        ensures
            r@ == spec_from(self@),
    {
        self.ops[0].offer_asset_info.clone()
    }

    /// The declared ask asset: the last hop's ask side.
    pub fn to(&self) -> (r: AssetInfo)
        requires
            self@.len() > 0,
        ensures
            r@ == spec_to(self@),
    {
        self.ops[self.ops.len() - 1].ask_asset_info.clone()
    }

    /// Surrenders the hops, e.g. for reporting them in an error.
    pub fn into_inner(self) -> (r: Vec<SwapOperation>)
        ensures
            ops_seq_view(r@) == self@,
    {
        self.ops
    }

    /// Reverses the hop order and exchanges each hop's endpoints. Used
    /// for bidirectional registration; only a labeling transform.
    pub fn reverse(&self) -> (r: SwapOperationsList)
        ensures
            r@ == spec_reverse_ops(self@),
    {
        let n = self.ops.len();
        let mut rev: Vec<SwapOperation> = Vec::new();
        let mut i: usize = 0;
        while i < n
            invariant
                i <= n,
                n == self.ops@.len(),
                rev@.len() == i,
                forall|j: int| 0 <= j < i ==> rev@[j]@ == swap_ends(self.ops@[n - 1 - j]@),
            decreases n - i,
        {
            let op = &self.ops[n - 1 - i];
            rev.push(SwapOperation {
                pool: op.pool,
                offer_asset_info: op.ask_asset_info.clone(),
                ask_asset_info: op.offer_asset_info.clone(),
            });
            i = i + 1;
        }
        proof {
            assert(ops_seq_view(rev@) =~= spec_reverse_ops(self@));
        }
        SwapOperationsList { ops: rev }
    }
}

impl Clone for SwapOperationsList {
    fn clone(&self) -> (res: Self)
        ensures
            res@ == self@,
    {
        let mut ops: Vec<SwapOperation> = Vec::new();
        let mut i: usize = 0;
        while i < self.ops.len()
            invariant
                i <= self.ops@.len(),
                ops@.len() == i,
                forall|j: int| 0 <= j < i ==> ops@[j]@ == self.ops@[j]@,
            decreases self.ops@.len() - i,
        {
            ops.push(self.ops[i].clone());
            i = i + 1;
        }
        proof {
            assert(ops_seq_view(ops@) =~= self@);
        }
        SwapOperationsList { ops }
    }
}

impl PartialEq for SwapOperationsList {
    fn eq(&self, other: &Self) -> (r: bool) {
        if self.ops.len() != other.ops.len() {
            proof {
                assert(self@.len() != other@.len());
            }
            return false;
        }
        let mut i: usize = 0;
        while i < self.ops.len()
            invariant
                i <= self.ops@.len(),
                self.ops@.len() == other.ops@.len(),
                forall|j: int| 0 <= j < i ==> self@[j] == other@[j],
            decreases self.ops@.len() - i,
        {
            if !(self.ops[i] == other.ops[i]) {
                proof {
                    assert(self@[i as int] != other@[i as int]);
                }
                return false;
            }
            i = i + 1;
        }
        proof {
            assert(self@ =~= other@);
        }
        true
    }
}

impl vstd::std_specs::cmp::PartialEqSpecImpl for SwapOperationsList {
    open spec fn obeys_eq_spec() -> bool {
        true
    }

    open spec fn eq_spec(&self, other: &Self) -> bool {
        self@ == other@
    }
}

} // verus!
