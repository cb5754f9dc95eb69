//! A modeled view of on-ledger balances: who owns how much of which
//! asset. The hop execution protocol is interpreted against this model,
//! exactly as the live system reads and writes bank and token balances.

use vstd::prelude::*;
use crate::asset::{AssetInfo, AssetInfoV};

verus! {

/// Spec-level image of a [`BalanceEntry`].
#[verifier::ext_equal]
pub struct BalanceEntryV {
    pub owner: Seq<char>,
    pub asset: AssetInfoV,
    pub amount: u128,
}

/// One balance: `owner` holds `amount` of `asset`.
#[derive(Debug)]
pub struct BalanceEntry {
    pub owner: String,
    pub asset: AssetInfo,
    pub amount: u128,
}

impl View for BalanceEntry {
    type V = BalanceEntryV;

    open spec fn view(&self) -> BalanceEntryV {
        BalanceEntryV { owner: self.owner@, asset: self.asset@, amount: self.amount }
    }
}

/// Whether an entry belongs to the given owner and asset.
pub open spec fn key_match(e: BalanceEntryV, owner: Seq<char>, asset: AssetInfoV) -> bool {
    e.owner == owner && e.asset == asset
}

/// The balance an owner holds of an asset: the first matching entry's
/// amount, or zero. Balances are never negative.
pub open spec fn spec_balance(s: Seq<BalanceEntryV>, owner: Seq<char>, asset: AssetInfoV) -> u128
    decreases s.len(),
{
    if s.len() == 0 {
        0
    } else if key_match(s[0], owner, asset) {
        s[0].amount
    } else {
        spec_balance(s.skip(1), owner, asset)
    }
}

/// The ledger after one balance is set: the first matching entry is
/// replaced, or a fresh entry is appended.
pub open spec fn spec_set_balance(
    s: Seq<BalanceEntryV>,
    owner: Seq<char>,
    asset: AssetInfoV,
    amount: u128,
) -> Seq<BalanceEntryV>
    decreases s.len(),
{
    if s.len() == 0 {
        seq![BalanceEntryV { owner, asset, amount }]
    } else if key_match(s[0], owner, asset) {
        seq![BalanceEntryV { owner, asset, amount }] + s.skip(1)
    } else {
        seq![s[0]] + spec_set_balance(s.skip(1), owner, asset, amount)
    }
}

/// Setting a balance makes that balance the set amount.
pub proof fn lemma_set_balance_same(
    s: Seq<BalanceEntryV>,
    owner: Seq<char>,
    asset: AssetInfoV,
    amount: u128,
)
    ensures
        spec_balance(spec_set_balance(s, owner, asset, amount), owner, asset) == amount,
    decreases s.len(),
{
    let e = BalanceEntryV { owner, asset, amount };
    if s.len() == 0 {
        assert(key_match(seq![e][0], owner, asset));
    } else if key_match(s[0], owner, asset) {
        assert((seq![e] + s.skip(1))[0] == e);
    } else {
        lemma_set_balance_same(s.skip(1), owner, asset, amount);
        let t = seq![s[0]] + spec_set_balance(s.skip(1), owner, asset, amount);
        assert(t[0] == s[0]);
        assert(t.skip(1) =~= spec_set_balance(s.skip(1), owner, asset, amount));
    }
}

/// Setting a balance leaves every other balance as it was.
pub proof fn lemma_set_balance_other(
    s: Seq<BalanceEntryV>,
    owner: Seq<char>,
    asset: AssetInfoV,
    amount: u128,
    o2: Seq<char>,
    a2: AssetInfoV,
)
    requires
        !(o2 == owner && a2 == asset),
    ensures
        spec_balance(spec_set_balance(s, owner, asset, amount), o2, a2) == spec_balance(s, o2, a2),
    decreases s.len(),
{
    let e = BalanceEntryV { owner, asset, amount };
    let t = spec_set_balance(s, owner, asset, amount);
    if s.len() == 0 {
        assert(t == seq![e]);
        assert(t.len() == 1);
        assert(!key_match(t[0], o2, a2));
        assert(t.skip(1) =~= Seq::<BalanceEntryV>::empty());
        assert(spec_balance(Seq::<BalanceEntryV>::empty(), o2, a2) == 0);
        assert(spec_balance(t, o2, a2) == 0);
    } else if key_match(s[0], owner, asset) {
        assert(t == seq![e] + s.skip(1));
        assert(t.len() == 1 + s.skip(1).len());
        assert(t[0] == e);
        assert(!key_match(e, o2, a2));
        assert(t.skip(1) =~= s.skip(1));
        assert(spec_balance(t, o2, a2) == spec_balance(s.skip(1), o2, a2));
        assert(!key_match(s[0], o2, a2));
        assert(spec_balance(s, o2, a2) == spec_balance(s.skip(1), o2, a2));
    } else {
        lemma_set_balance_other(s.skip(1), owner, asset, amount, o2, a2);
        assert(t == seq![s[0]] + spec_set_balance(s.skip(1), owner, asset, amount));
        assert(t.len() == 1 + spec_set_balance(s.skip(1), owner, asset, amount).len());
        assert(t[0] == s[0]);
        assert(t.skip(1) =~= spec_set_balance(s.skip(1), owner, asset, amount));
        if key_match(s[0], o2, a2) {
            assert(spec_balance(t, o2, a2) == s[0].amount);
            assert(spec_balance(s, o2, a2) == s[0].amount);
        } else {
            assert(spec_balance(t, o2, a2) == spec_balance(t.skip(1), o2, a2));
            assert(spec_balance(s, o2, a2) == spec_balance(s.skip(1), o2, a2));
        }
    }
}

/// The ledger of modeled balances.
#[derive(Debug)]
pub struct Ledger {
    entries: Vec<BalanceEntry>,
}

impl View for Ledger {
    type V = Seq<BalanceEntryV>;

    closed spec fn view(&self) -> Seq<BalanceEntryV> {
        Seq::new(self.entries@.len(), |i: int| self.entries@[i]@)
    }
}

impl Clone for BalanceEntry {
    fn clone(&self) -> (res: Self)
        ensures
            res@ == self@,
    {
        BalanceEntry { owner: self.owner.clone(), asset: self.asset.clone(), amount: self.amount }
    }
}

impl Ledger {
    /// An identical copy, so a run can work on its own balances and
    /// leave the caller's untouched.
    pub fn clone_ledger(&self) -> (r: Ledger)
        ensures
            r@ == self@,
    {
        let mut entries: Vec<BalanceEntry> = Vec::new();
        let mut i: usize = 0;
        while i < self.entries.len()
            invariant
                i <= self.entries@.len(),
                entries@.len() == i,
                forall|j: int| 0 <= j < i ==> entries@[j]@ == self.entries@[j]@,
            decreases self.entries@.len() - i,
        {
            entries.push(self.entries[i].clone());
            i = i + 1;
        }
        let r = Ledger { entries };
        proof {
            assert(r@ =~= self@);
        }
        r
    }

    /// A ledger with every balance zero.
    pub fn new() -> (r: Ledger)
        ensures
            r@ == Seq::<BalanceEntryV>::empty(),
    {
        let r = Ledger { entries: Vec::new() };
        proof {
            assert(r@ =~= Seq::<BalanceEntryV>::empty());
        }
        r
    }

    /// The balance `owner` holds of `asset`.
    pub fn balance_of(&self, owner: &String, asset: &AssetInfo) -> (r: u128)
        ensures
            r == spec_balance(self@, owner@, asset@),
    {
        let mut i: usize = 0;
        proof {
            assert(self@.skip(0) =~= self@);
        }
        while i < self.entries.len()
            invariant
                i <= self.entries@.len(),
                self@.len() == self.entries@.len(),
                spec_balance(self@, owner@, asset@) == spec_balance(
                    self@.skip(i as int),
                    owner@,
                    asset@,
                ),
            decreases self.entries@.len() - i,
        {
            let e = &self.entries[i];
            proof {
                assert(self@.skip(i as int)[0] == self@[i as int]);
            }
            if e.owner == *owner && e.asset == *asset {
                return e.amount;
            }
            proof {
                assert(self@.skip(i as int).skip(1) =~= self@.skip(i as int + 1));
            }
            i = i + 1;
        }
        proof {
            assert(self@.skip(self.entries@.len() as int) =~= Seq::<BalanceEntryV>::empty());
        }
        0
    }

    /// Sets the balance `owner` holds of `asset`.
    pub fn set_balance(&mut self, owner: &String, asset: &AssetInfo, amount: u128)
        ensures
            final(self)@ == spec_set_balance(old(self)@, owner@, asset@, amount),
            spec_balance(final(self)@, owner@, asset@) == amount,
            forall|o2: Seq<char>, a2: AssetInfoV|
                !(o2 == owner@ && a2 == asset@) ==> #[trigger] spec_balance(final(self)@, o2, a2)
                    == spec_balance(old(self)@, o2, a2),
    {
        let ghost s0 = self@;
        let mut i: usize = 0;
        while i < self.entries.len()
            invariant
                i <= self.entries@.len(),
                self@ == s0,
                s0 == old(self)@,
                self@.len() == self.entries@.len(),
                forall|j: int| 0 <= j < i ==> !key_match(s0[j], owner@, asset@),
            decreases self.entries@.len() - i,
        {
            let found = {
                let e = &self.entries[i];
                e.owner == *owner && e.asset == *asset
            };
            if found {
                self.entries[i].owner = owner.clone();
                self.entries[i].asset = asset.clone();
                self.entries[i].amount = amount;
                proof {
                    assert(self@ =~= s0.update(
                        i as int,
                        BalanceEntryV { owner: owner@, asset: asset@, amount },
                    ));
                    lemma_set_first_match(s0, owner@, asset@, amount, i as int);
                    lemma_set_balance_same(s0, owner@, asset@, amount);
                    assert forall|o2: Seq<char>, a2: AssetInfoV|
                        !(o2 == owner@ && a2 == asset@) implies #[trigger] spec_balance(
                        self@,
                        o2,
                        a2,
                    ) == spec_balance(s0, o2, a2) by {
                        lemma_set_balance_other(s0, owner@, asset@, amount, o2, a2);
                    }
                }
                return ;
            }
            i = i + 1;
        }
        self.entries.push(BalanceEntry { owner: owner.clone(), asset: asset.clone(), amount });
        proof {
            assert(self@ =~= s0.push(BalanceEntryV { owner: owner@, asset: asset@, amount }));
            lemma_set_no_match(s0, owner@, asset@, amount);
            lemma_set_balance_same(s0, owner@, asset@, amount);
            assert forall|o2: Seq<char>, a2: AssetInfoV|
                !(o2 == owner@ && a2 == asset@) implies #[trigger] spec_balance(self@, o2, a2)
                == spec_balance(s0, o2, a2) by {
                lemma_set_balance_other(s0, owner@, asset@, amount, o2, a2);
            }
        }
    }
}

/// When the first matching entry stands at position i, setting the
/// balance replaces exactly that entry.
proof fn lemma_set_first_match(
    s: Seq<BalanceEntryV>,
    owner: Seq<char>,
    asset: AssetInfoV,
    amount: u128,
    i: int,
)
    requires
        0 <= i < s.len(),
        key_match(s[i], owner, asset),
        forall|j: int| 0 <= j < i ==> !key_match(s[j], owner, asset),
    ensures
        spec_set_balance(s, owner, asset, amount) == s.update(
            i,
            BalanceEntryV { owner, asset, amount },
        ),
    decreases i,
{
    let e = BalanceEntryV { owner, asset, amount };
    if i == 0 {
        assert(spec_set_balance(s, owner, asset, amount) =~= s.update(0, e));
    } else {
        assert(forall|j: int| 0 <= j < i - 1 ==> !key_match(s.skip(1)[j], owner, asset));
        assert(s.skip(1)[i - 1] == s[i]);
        lemma_set_first_match(s.skip(1), owner, asset, amount, i - 1);
        assert(spec_set_balance(s, owner, asset, amount) =~= s.update(i, e)) by {
            assert(spec_set_balance(s, owner, asset, amount) == seq![s[0]] + spec_set_balance(
                s.skip(1),
                owner,
                asset,
                amount,
            ));
            assert(s.skip(1).update(i - 1, e) =~= s.update(i, e).skip(1));
        }
    }
}

/// With no matching entry, setting the balance appends a fresh entry.
proof fn lemma_set_no_match(s: Seq<BalanceEntryV>, owner: Seq<char>, asset: AssetInfoV, amount: u128)
    requires
        forall|j: int| 0 <= j < s.len() ==> !key_match(s[j], owner, asset),
    ensures
        spec_set_balance(s, owner, asset, amount) == s.push(
            BalanceEntryV { owner, asset, amount },
        ),
    decreases s.len(),
{
    let e = BalanceEntryV { owner, asset, amount };
    if s.len() == 0 {
        assert(spec_set_balance(s, owner, asset, amount) =~= s.push(e));
    } else {
        assert(forall|j: int| 0 <= j < s.len() - 1 ==> !key_match(s.skip(1)[j], owner, asset));
        lemma_set_no_match(s.skip(1), owner, asset, amount);
        assert(spec_set_balance(s, owner, asset, amount) =~= s.push(e)) by {
            assert(spec_set_balance(s, owner, asset, amount) == seq![s[0]] + spec_set_balance(
                s.skip(1),
                owner,
                asset,
                amount,
            ));
            assert(s.skip(1).push(e) =~= s.push(e).skip(1));
        }
    }
}

} // verus!
