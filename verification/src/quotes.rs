//! The venues' pricing oracle, modeled as data: a finite table of quotes,
//! one per (pool, offer asset, offer amount, ask asset) question. A dry
//! run of a path consults this table exactly as the live system consults
//! each venue's quoting capability.

use vstd::prelude::*;
use crate::asset::{AssetInfo, AssetInfoV};

verus! {

/// Spec-level image of a [`Quote`].
#[verifier::ext_equal]
pub struct QuoteV {
    pub pool: u64,
    pub offer: AssetInfoV,
    pub offer_amount: u128,
    pub ask: AssetInfoV,
    pub return_amount: u128,
}

/// One venue answer: converting `offer_amount` of `offer` through `pool`
/// yields `return_amount` of `ask`.
#[derive(Debug)]
pub struct Quote {
    pub pool: u64,
    pub offer: AssetInfo,
    pub offer_amount: u128,
    pub ask: AssetInfo,
    pub return_amount: u128,
}

impl View for Quote {
    type V = QuoteV;

    open spec fn view(&self) -> QuoteV {
        QuoteV {
            pool: self.pool,
            offer: self.offer@,
            offer_amount: self.offer_amount,
            ask: self.ask@,
            return_amount: self.return_amount,
        }
    }
}

/// The quote table standing for every venue's quoting capability.
#[derive(Debug)]
pub struct PoolQuotes {
    pub quotes: Vec<Quote>,
}

impl View for PoolQuotes {
    type V = Seq<QuoteV>;

    open spec fn view(&self) -> Seq<QuoteV> {
        Seq::new(self.quotes@.len(), |i: int| self.quotes@[i]@)
    }
}

/// Whether a quote answers the given question.
pub open spec fn quote_matches(
    q: QuoteV,
    pool: u64,
    offer: AssetInfoV,
    amount: u128,
    ask: AssetInfoV,
) -> bool {
    q.pool == pool && q.offer == offer && q.offer_amount == amount && q.ask == ask
}

/// The table's answer to a question: the first matching quote's return
/// amount, if any.
pub open spec fn quote_lookup(
    qs: Seq<QuoteV>,
    pool: u64,
    offer: AssetInfoV,
    amount: u128,
    ask: AssetInfoV,
) -> Option<u128>
    decreases qs.len(),
{
    if qs.len() == 0 {
        None
    } else if quote_matches(qs[0], pool, offer, amount, ask) {
        Some(qs[0].return_amount)
    } else {
        quote_lookup(qs.skip(1), pool, offer, amount, ask)
    }
}

impl PoolQuotes {
    /// An empty table.
    pub fn new() -> (r: PoolQuotes)
        ensures
            r@ == Seq::<QuoteV>::empty(),
    {
        let r = PoolQuotes { quotes: Vec::new() };
        proof {
            assert(r@ =~= Seq::<QuoteV>::empty());
        }
        r
    }

    /// Consults the table: the first quote matching the question wins.
    pub fn lookup(&self, pool: u64, offer: &AssetInfo, amount: u128, ask: &AssetInfo) -> (r:
        Option<u128>)
        ensures
            r == quote_lookup(self@, pool, offer@, amount, ask@),
    {
        let mut i: usize = 0;
        proof {
            assert(self@.skip(0) =~= self@);
        }
        while i < self.quotes.len()
            invariant
                i <= self.quotes@.len(),
                self@.len() == self.quotes@.len(),
                quote_lookup(self@, pool, offer@, amount, ask@) == quote_lookup(
                    self@.skip(i as int),
                    pool,
                    offer@,
                    amount,
                    ask@,
                ),
            decreases self.quotes@.len() - i,
        {
            let q = &self.quotes[i];
            proof {
                assert(self@.skip(i as int)[0] == self@[i as int]);
            }
            if q.pool == pool && q.offer == *offer && q.offer_amount == amount && q.ask == *ask {
                return Some(q.return_amount);
            }
            proof {
                assert(self@.skip(i as int).skip(1) =~= self@.skip(i as int + 1));
            }
            i = i + 1;
        }
        proof {
            assert(self@.skip(self.quotes@.len() as int) =~= Seq::<QuoteV>::empty());
        }
        None
    }
}

} // verus!
