//! The path registry: a persistent mapping from (offer asset, ask asset,
//! path id) to an ordered hop list. Ids are allocated per pair, starting
//! at 1 and strictly increasing; there is no delete operation. The
//! registry also owns the admin identity that gates registration.

use vstd::prelude::*;
use vstd::string::StringExecFns;
use crate::asset::{AssetInfo, AssetInfoV};
use crate::error::{ContractError, ErrorV};
use crate::operations::{
    ops_seq_view, spec_from, spec_reverse_ops, spec_to, swap_ends, valid_ops, SwapOperationV,
    SwapOperationsList,
};

verus! {

/// Spec-level image of one registry entry.
#[verifier::ext_equal]
pub struct PathEntryV {
    pub offer: AssetInfoV,
    pub ask: AssetInfoV,
    pub id: u64,
    pub path: Seq<SwapOperationV>,
}

/// One stored path, keyed by (offer asset, ask asset, id).
#[derive(Debug)]
pub struct PathEntry {
    pub offer: AssetInfo,
    pub ask: AssetInfo,
    pub id: u64,
    pub path: SwapOperationsList,
}

impl View for PathEntry {
    type V = PathEntryV;

    open spec fn view(&self) -> PathEntryV {
        PathEntryV { offer: self.offer@, ask: self.ask@, id: self.id, path: self.path@ }
    }
}

/// Spec-level image of the registry.
#[verifier::ext_equal]
pub struct RegistryV {
    pub admin: Option<Seq<char>>,
    pub entries: Seq<PathEntryV>,
}

/// Whether an entry is stored under the given pair.
pub open spec fn entry_matches(e: PathEntryV, offer: AssetInfoV, ask: AssetInfoV) -> bool {
    e.offer == offer && e.ask == ask
}

/// The entries stored under a pair, in storage order (ascending id under
/// the registry invariant).
pub open spec fn pair_entries(
    entries: Seq<PathEntryV>,
    offer: AssetInfoV,
    ask: AssetInfoV,
) -> Seq<PathEntryV>
    decreases entries.len(),
{
    if entries.len() == 0 {
        Seq::empty()
    } else {
        let rest = pair_entries(entries.drop_last(), offer, ask);
        if entry_matches(entries.last(), offer, ask) {
            rest.push(entries.last())
        } else {
            rest
        }
    }
}

/// The (id, path) listing of a pair, in storage order.
pub open spec fn pair_listing(
    entries: Seq<PathEntryV>,
    offer: AssetInfoV,
    ask: AssetInfoV,
) -> Seq<(u64, Seq<SwapOperationV>)> {
    let es = pair_entries(entries, offer, ask);
    Seq::new(es.len(), |i: int| (es[i].id, es[i].path))
}

/// Some entry is stored under the given pair.
pub open spec fn has_pair(entries: Seq<PathEntryV>, offer: AssetInfoV, ask: AssetInfoV) -> bool {
    pair_entries(entries, offer, ask).len() > 0
}

/// The registry invariant: every entry's id continues its own pair's
/// allocation (one past the number of earlier entries of that pair), and
/// every stored path is a valid hop list whose endpoints are the pair it
/// is stored under.
pub open spec fn entries_wf(entries: Seq<PathEntryV>) -> bool {
    forall|i: int| 0 <= i < entries.len() ==> entry_wf_at(entries, i)
}

/// The invariant of the entry at one position.
pub open spec fn entry_wf_at(entries: Seq<PathEntryV>, i: int) -> bool {
    &&& entries[i].id == pair_entries(entries.take(i), entries[i].offer, entries[i].ask).len() + 1
    &&& valid_ops(entries[i].path)
    &&& spec_from(entries[i].path) == entries[i].offer
    &&& spec_to(entries[i].path) == entries[i].ask
}

/// Appending one registration under a pair: the new entry's id is one
/// past the number of entries already stored under that pair.
pub open spec fn append_entry(
    entries: Seq<PathEntryV>,
    offer: AssetInfoV,
    ask: AssetInfoV,
    path: Seq<SwapOperationV>,
) -> Seq<PathEntryV> {
    entries.push(PathEntryV {
        offer,
        ask,
        id: (pair_entries(entries, offer, ask).len() + 1) as u64,
        path,
    })
}

/// The registry contents after one successful registration: the path is
/// stored under (offer, ask); if bidirectional, the reversed path is then
/// stored under (ask, offer), with that pair's own next id.
pub open spec fn register_result(
    entries: Seq<PathEntryV>,
    offer: AssetInfoV,
    ask: AssetInfoV,
    path: Seq<SwapOperationV>,
    bidirectional: bool,
) -> Seq<PathEntryV> {
    let once = append_entry(entries, offer, ask, path);
    if bidirectional {
        append_entry(once, ask, offer, spec_reverse_ops(path))
    } else {
        once
    }
}

/// The path registry together with the admin identity that gates
/// registration.
#[derive(Debug)]
pub struct PathRegistry {
    admin: Option<String>,
    entries: Vec<PathEntry>,
}

impl View for PathRegistry {
    type V = RegistryV;

    closed spec fn view(&self) -> RegistryV {
        RegistryV {
            admin: match &self.admin {
                Some(a) => Some(a@),
                None => None,
            },
            entries: Seq::new(self.entries@.len(), |i: int| self.entries@[i]@),
        }
    }
}

/// Whether a sender holds the registration capability.
pub open spec fn is_admin(r: RegistryV, sender: Seq<char>) -> bool {
    r.admin == Some(sender)
}

impl PathRegistry {
    /// Rebuilds a registry from persisted parts.
    pub fn from_parts(admin: Option<String>, entries: Vec<PathEntry>) -> (r: PathRegistry)
        ensures
            r@.admin == (match admin {
                Some(a) => Some::<Seq<char>>(a@),
                None => None::<Seq<char>>,
            }),
            r@.entries == Seq::new(entries@.len(), |i: int| entries@[i]@),
    {
        PathRegistry { admin, entries }
    }

    /// The stored entries, in storage order, for persistence.
    pub fn entries(&self) -> (r: &Vec<PathEntry>)
        ensures
            self@.entries == Seq::new(r@.len(), |i: int| r@[i]@),
    {
        &self.entries
    }

    /// The admin identity that gates registration.
    pub fn admin(&self) -> (r: &Option<String>)
        ensures
            self@.admin == (match r {
                Some(a) => Some::<Seq<char>>(a@),
                None => None::<Seq<char>>,
            }),
    {
        &self.admin
    }

    /// An empty registry owned by the given admin identity.
    pub fn new(admin: Option<String>) -> (r: PathRegistry)
        ensures
            r@.admin == (match admin {
                Some(a) => Some::<Seq<char>>(a@),
                None => None::<Seq<char>>,
            }),
            r@.entries == Seq::<PathEntryV>::empty(),
            entries_wf(r@.entries),
    {
        let r = PathRegistry { admin, entries: Vec::new() };
        proof {
            assert(r@.entries =~= Seq::<PathEntryV>::empty());
        }
        r
    }

    /// Registers a path under (offer, ask), and under (ask, offer) in
    /// reversed form if `bidirectional`. Only the admin may register;
    /// the path's endpoints must match the declared pair. Duplicate path
    /// contents may coexist under different ids.
    ///
    /// The length bound keeps the freshly allocated ids inside `u64`.
    pub fn set_path(
        &mut self,
        sender: &String,
        offer: &AssetInfo,
        ask: &AssetInfo,
        path: SwapOperationsList,
        bidirectional: bool,
    ) -> (r: Result<(), ContractError>)
        requires
            old(self)@.entries.len() + 2 <= u64::MAX,
            valid_ops(path@),
        ensures
            !is_admin(old(self)@, sender@) ==> {
                &&& r matches Err(e) && e@ == ErrorV::Unauthorized
                &&& final(self)@ == old(self)@
            },
            is_admin(old(self)@, sender@) && !(spec_from(path@) == offer@ && spec_to(path@)
                == ask@) ==> {
                &&& r matches Err(e) && e@ == (ErrorV::InvalidSwapOperations {
                    operations: path@,
                    reason: "the path does not match the offer and ask assets"@,
                })
                &&& final(self)@ == old(self)@
            },
            is_admin(old(self)@, sender@) && spec_from(path@) == offer@ && spec_to(path@)
                == ask@ ==> {
                &&& r is Ok
                &&& final(self)@.admin == old(self)@.admin
                &&& final(self)@.entries == register_result(
                    old(self)@.entries,
                    offer@,
                    ask@,
                    path@,
                    bidirectional,
                )
            },
            entries_wf(old(self)@.entries) ==> entries_wf(final(self)@.entries),
    {
        let authorized = match &self.admin {
            Some(a) => *a == *sender,
            None => false,
        };
        if !authorized {
            return Err(ContractError::Unauthorized);
        }
        if !(path.from() == *offer && path.to() == *ask) {
            return Err(ContractError::InvalidSwapOperations {
                operations: path.into_inner(),
                reason: String::from_str("the path does not match the offer and ask assets"),
            });
        }
        let ghost entries0 = self@.entries;
        let reversed = if bidirectional {
            Some(path.reverse())
        } else {
            None
        };
        let next_id = self.next_pair_id(offer, ask);
        self.entries.push(PathEntry {
            offer: offer.clone(),
            ask: ask.clone(),
            id: next_id,
            path,
        });
        proof {
            lemma_pair_entries_len_bound(entries0, offer@, ask@);
            assert(self@.entries =~= append_entry(entries0, offer@, ask@, path@));
            if entries_wf(entries0) {
                lemma_append_entry_wf(entries0, offer@, ask@, path@);
            }
        }
        if let Some(rev) = reversed {
            let ghost entries1 = self@.entries;
            let next_rev_id = self.next_pair_id(ask, offer);
            self.entries.push(PathEntry {
                offer: ask.clone(),
                ask: offer.clone(),
                id: next_rev_id,
                path: rev,
            });
            proof {
                lemma_pair_entries_len_bound(entries1, ask@, offer@);
                lemma_reverse_valid(path@);
                assert(self@.entries =~= append_entry(
                    entries1,
                    ask@,
                    offer@,
                    spec_reverse_ops(path@),
                ));
                if entries_wf(entries1) {
                    lemma_append_entry_wf(entries1, ask@, offer@, spec_reverse_ops(path@));
                }
            }
        }
        Ok(())
    }

    /// The id that the next registration under the pair will receive:
    /// one past the number of entries already stored under it.
    fn next_pair_id(&self, offer: &AssetInfo, ask: &AssetInfo) -> (r: u64)
        requires
            self@.entries.len() + 1 <= u64::MAX,
        ensures
            r == pair_entries(self@.entries, offer@, ask@).len() + 1,
    {
        let mut count: u64 = 0;
        let mut i: usize = 0;
        proof {
            assert(self@.entries.take(0) =~= Seq::<PathEntryV>::empty());
        }
        while i < self.entries.len()
            invariant
                i <= self.entries@.len(),
                self@.entries.len() == self.entries@.len(),
                self@.entries.len() + 1 <= u64::MAX,
                count == pair_entries(self@.entries.take(i as int), offer@, ask@).len(),
                count <= i,
            decreases self.entries@.len() - i,
        {
            proof {
                lemma_pair_entries_take_step(self@.entries, offer@, ask@, i as int);
            }
            let e = &self.entries[i];
            if e.offer == *offer && e.ask == *ask {
                count = count + 1;
            }
            i = i + 1;
        }
        proof {
            assert(self@.entries.take(self.entries@.len() as int) =~= self@.entries);
        }
        count + 1
    }

    /// All paths registered under (offer, ask), ascending by id. Absence
    /// is an error, never an empty success: with no entry under the pair
    /// the result is the "no path found" condition.
    pub fn list(&self, offer: &AssetInfo, ask: &AssetInfo) -> (r: Result<
        Vec<(u64, SwapOperationsList)>,
        ContractError,
    >)
        ensures
            r is Ok <==> has_pair(self@.entries, offer@, ask@),
            r matches Ok(v) ==> listed_view(v@) == pair_listing(self@.entries, offer@, ask@),
            r matches Err(e) ==> e@ == (ErrorV::NoPathFound { offer: offer@, ask: ask@ }),
    {
        let mut found: Vec<(u64, SwapOperationsList)> = Vec::new();
        let mut i: usize = 0;
        proof {
            assert(self@.entries.take(0) =~= Seq::<PathEntryV>::empty());
        }
        while i < self.entries.len()
            invariant
                i <= self.entries@.len(),
                self@.entries.len() == self.entries@.len(),
                found@.len() == pair_entries(self@.entries.take(i as int), offer@, ask@).len(),
                forall|j: int|
                    0 <= j < found@.len() ==> (#[trigger] found@[j]).0 == pair_entries(
                        self@.entries.take(i as int),
                        offer@,
                        ask@,
                    )[j].id && found@[j].1@ == pair_entries(
                        self@.entries.take(i as int),
                        offer@,
                        ask@,
                    )[j].path,
            decreases self.entries@.len() - i,
        {
            proof {
                lemma_pair_entries_take_step(self@.entries, offer@, ask@, i as int);
            }
            let e = &self.entries[i];
            if e.offer == *offer && e.ask == *ask {
                found.push((e.id, e.path.clone()));
            }
            i = i + 1;
        }
        proof {
            assert(self@.entries.take(self.entries@.len() as int) =~= self@.entries);
        }
        if found.len() == 0 {
            Err(ContractError::NoPathFound { offer: offer.clone(), ask: ask.clone() })
        } else {
            proof {
                assert(listed_view(found@) =~~= pair_listing(self@.entries, offer@, ask@));
            }
            Ok(found)
        }
    }

    /// The distinct offer assets from which some registered path reaches
    /// the given ask asset. A full scan; no secondary index is kept.
    pub fn supported_offer_assets(&self, ask: &AssetInfo) -> (r: Vec<AssetInfo>)
        ensures
            forall|i: int, j: int| 0 <= i < j < r@.len() ==> r@[i]@ != r@[j]@,
            forall|i: int|
                0 <= i < r@.len() ==> has_pair(self@.entries, #[trigger] r@[i]@, ask@),
            forall|k: int|
                0 <= k < self@.entries.len() && (#[trigger] self@.entries[k]).ask == ask@
                    ==> infos_contain(r@, self@.entries[k].offer),
    {
        let mut found: Vec<AssetInfo> = Vec::new();
        let mut i: usize = 0;
        while i < self.entries.len()
            invariant
                i <= self.entries@.len(),
                self@.entries.len() == self.entries@.len(),
                forall|a: int, b: int| 0 <= a < b < found@.len() ==> found@[a]@ != found@[b]@,
                forall|a: int|
                    0 <= a < found@.len() ==> has_pair(self@.entries, #[trigger] found@[a]@, ask@),
                forall|k: int|
                    0 <= k < i && (#[trigger] self@.entries[k]).ask == ask@ ==> infos_contain(
                        found@,
                        self@.entries[k].offer,
                    ),
            decreases self.entries@.len() - i,
        {
            let e = &self.entries[i];
            let ghost prev = found@;
            if e.ask == *ask && !contains_info(&found, &e.offer) {
                proof {
                    lemma_pair_entry_witness(self@.entries, i as int);
                }
                found.push(e.offer.clone());
            }
            proof {
                assert forall|k: int|
                    0 <= k < i + 1 && (#[trigger] self@.entries[k]).ask == ask@
                        implies infos_contain(found@, self@.entries[k].offer) by {
                    if found@ =~= prev {
                        assert(infos_contain(prev, self@.entries[k].offer));
                    } else if k < i {
                        lemma_infos_contain_push(
                            prev,
                            found@[found@.len() - 1],
                            self@.entries[k].offer,
                        );
                        assert(found@ =~= prev.push(found@[found@.len() - 1]));
                    } else {
                        assert(found@[found@.len() - 1]@ == self@.entries[k].offer);
                    }
                }
            }
            i = i + 1;
        }
        found
    }

    /// The distinct ask assets reachable from the given offer asset by
    /// some registered path. The mirror scan of
    /// [`PathRegistry::supported_offer_assets`].
    pub fn supported_ask_assets(&self, offer: &AssetInfo) -> (r: Vec<AssetInfo>)
        ensures
            forall|i: int, j: int| 0 <= i < j < r@.len() ==> r@[i]@ != r@[j]@,
            forall|i: int|
                0 <= i < r@.len() ==> has_pair(self@.entries, offer@, #[trigger] r@[i]@),
            forall|k: int|
                0 <= k < self@.entries.len() && (#[trigger] self@.entries[k]).offer == offer@
                    ==> infos_contain(r@, self@.entries[k].ask),
    {
        let mut found: Vec<AssetInfo> = Vec::new();
        let mut i: usize = 0;
        while i < self.entries.len()
            invariant
                i <= self.entries@.len(),
                self@.entries.len() == self.entries@.len(),
                forall|a: int, b: int| 0 <= a < b < found@.len() ==> found@[a]@ != found@[b]@,
                forall|a: int|
                    0 <= a < found@.len() ==> has_pair(self@.entries, offer@, #[trigger] found@[a]@),
                forall|k: int|
                    0 <= k < i && (#[trigger] self@.entries[k]).offer == offer@ ==> infos_contain(
                        found@,
                        self@.entries[k].ask,
                    ),
            decreases self.entries@.len() - i,
        {
            let e = &self.entries[i];
            let ghost prev = found@;
            if e.offer == *offer && !contains_info(&found, &e.ask) {
                proof {
                    lemma_pair_entry_witness(self@.entries, i as int);
                }
                found.push(e.ask.clone());
            }
            proof {
                assert forall|k: int|
                    0 <= k < i + 1 && (#[trigger] self@.entries[k]).offer == offer@
                        implies infos_contain(found@, self@.entries[k].ask) by {
                    if found@ =~= prev {
                        assert(infos_contain(prev, self@.entries[k].ask));
                    } else if k < i {
                        lemma_infos_contain_push(
                            prev,
                            found@[found@.len() - 1],
                            self@.entries[k].ask,
                        );
                        assert(found@ =~= prev.push(found@[found@.len() - 1]));
                    } else {
                        assert(found@[found@.len() - 1]@ == self@.entries[k].ask);
                    }
                }
            }
            i = i + 1;
        }
        found
    }
}

/// The spec-level image of a listing vector.
pub open spec fn listed_view(s: Seq<(u64, SwapOperationsList)>) -> Seq<(u64, Seq<SwapOperationV>)> {
    Seq::new(s.len(), |i: int| (s[i].0, s[i].1@))
}

/// Whether a sequence of asset identifiers contains the given one.
pub open spec fn infos_contain(s: Seq<AssetInfo>, x: AssetInfoV) -> bool {
    exists|i: int| 0 <= i < s.len() && s[i]@ == x
}

/// Linear scan for an asset identifier.
fn contains_info(v: &Vec<AssetInfo>, x: &AssetInfo) -> (r: bool)
    ensures
        r == infos_contain(v@, x@),
{
    let mut i: usize = 0;
    while i < v.len()
        invariant
            i <= v@.len(),
            forall|j: int| 0 <= j < i ==> v@[j]@ != x@,
        decreases v@.len() - i,
    {
        if v[i] == *x {
            return true;
        }
        i = i + 1;
    }
    false
}

/// Pushing an element preserves membership, and membership of the pushed
/// element's image.
proof fn lemma_infos_contain_push(s: Seq<AssetInfo>, x: AssetInfo, y: AssetInfoV)
    requires
        infos_contain(s, y) || x@ == y,
    ensures
        infos_contain(s.push(x), y),
{
    if infos_contain(s, y) {
        let j = choose|j: int| 0 <= j < s.len() && s[j]@ == y;
        assert(s.push(x)[j]@ == y);
    } else {
        assert(s.push(x)[s.len() as int]@ == y);
    }
}

/// An entry whose pair matches witnesses `has_pair` for that pair.
proof fn lemma_pair_entry_witness(entries: Seq<PathEntryV>, i: int)
    requires
        0 <= i < entries.len(),
    ensures
        has_pair(entries, entries[i].offer, entries[i].ask),
    decreases entries.len(),
{
    if i == entries.len() - 1 {
        assert(entries.last() == entries[i]);
    } else {
        lemma_pair_entry_witness(entries.drop_last(), i);
        assert(entries.drop_last()[i] == entries[i]);
    }
}

/// Extending the scanned prefix by one entry extends the pair's entries
/// exactly when that entry is stored under the pair.
proof fn lemma_pair_entries_take_step(
    entries: Seq<PathEntryV>,
    offer: AssetInfoV,
    ask: AssetInfoV,
    i: int,
)
    requires
        0 <= i < entries.len(),
    ensures
        pair_entries(entries.take(i + 1), offer, ask) == (if entry_matches(entries[i], offer, ask) {
            pair_entries(entries.take(i), offer, ask).push(entries[i])
        } else {
            pair_entries(entries.take(i), offer, ask)
        }),
{
    assert(entries.take(i + 1).drop_last() =~= entries.take(i));
    assert(entries.take(i + 1).last() == entries[i]);
}

/// A pair's entries are drawn from positions below any take bound, so a
/// prefix count never exceeds the prefix length.
proof fn lemma_pair_entries_len_bound(entries: Seq<PathEntryV>, offer: AssetInfoV, ask: AssetInfoV)
    ensures
        pair_entries(entries, offer, ask).len() <= entries.len(),
    decreases entries.len(),
{
    if entries.len() > 0 {
        lemma_pair_entries_len_bound(entries.drop_last(), offer, ask);
    }
}

/// Appending an entry leaves every earlier prefix, and so every earlier
/// entry's invariant, unchanged; the appended entry satisfies its own.
proof fn lemma_append_entry_wf(
    entries: Seq<PathEntryV>,
    offer: AssetInfoV,
    ask: AssetInfoV,
    path: Seq<SwapOperationV>,
)
    requires
        entries_wf(entries),
        entries.len() + 1 <= u64::MAX,
        valid_ops(path),
        spec_from(path) == offer,
        spec_to(path) == ask,
    ensures
        entries_wf(append_entry(entries, offer, ask, path)),
{
    let appended = append_entry(entries, offer, ask, path);
    lemma_pair_entries_len_bound(entries, offer, ask);
    assert forall|i: int| 0 <= i < appended.len() implies entry_wf_at(appended, i) by {
        assert(appended.take(i) =~= entries.take(i)) by {
            assert(forall|j: int| 0 <= j < i ==> appended.take(i)[j] == entries[j]);
        }
        if i < entries.len() {
            assert(entry_wf_at(entries, i));
            assert(appended[i] == entries[i]);
        } else {
            assert(appended.take(i) =~= entries);
        }
    }
}

/// Appending an entry extends a pair's entries exactly when the entry is
/// stored under that pair.
proof fn lemma_pair_entries_push(
    entries: Seq<PathEntryV>,
    e: PathEntryV,
    offer: AssetInfoV,
    ask: AssetInfoV,
)
    ensures
        pair_entries(entries.push(e), offer, ask) == (if entry_matches(e, offer, ask) {
            pair_entries(entries, offer, ask).push(e)
        } else {
            pair_entries(entries, offer, ask)
        }),
{
    assert(entries.push(e).drop_last() =~= entries);
    assert(entries.push(e).last() == e);
}

/// Registration id allocation: under the registry invariant the ids
/// stored for a pair are exactly 1, 2, ... in ascending storage order,
/// so the k-th successful registration under a pair receives id k,
/// strictly increasing, starting at 1.
pub proof fn lemma_pair_ids_sequential(entries: Seq<PathEntryV>, offer: AssetInfoV, ask: AssetInfoV)
    requires
        entries_wf(entries),
    ensures
        forall|k: int|
            0 <= k < pair_entries(entries, offer, ask).len() ==> (#[trigger] pair_entries(
                entries,
                offer,
                ask,
            )[k]).id == k + 1,
    decreases entries.len(),
{
    if entries.len() > 0 {
        let prefix = entries.drop_last();
        assert(entries_wf(prefix)) by {
            assert forall|i: int| 0 <= i < prefix.len() implies entry_wf_at(prefix, i) by {
                assert(entry_wf_at(entries, i));
                assert(prefix[i] == entries[i]);
                assert(prefix.take(i) =~= entries.take(i));
            }
        }
        lemma_pair_ids_sequential(prefix, offer, ask);
        let rest = pair_entries(prefix, offer, ask);
        let last = entries.last();
        if entry_matches(last, offer, ask) {
            assert(pair_entries(entries, offer, ask) == rest.push(last)) by {
                assert(entries.drop_last() =~= prefix);
            }
            assert(entry_wf_at(entries, entries.len() - 1));
            assert(entries.take(entries.len() - 1) =~= prefix);
            assert(last.id == rest.len() + 1);
        } else {
            assert(pair_entries(entries, offer, ask) == rest);
        }
    }
}

/// A first registration under a pair stores exactly one entry for it,
/// with id 1: the listing that failed with the "no path found" condition
/// before the registration holds that single entry afterwards. (When the
/// two directions of a bidirectional registration name the same pair,
/// the mirror lands in that pair too, so this speaks of distinct pairs.)
pub proof fn lemma_first_registration(
    entries: Seq<PathEntryV>,
    offer: AssetInfoV,
    ask: AssetInfoV,
    path: Seq<SwapOperationV>,
    bidirectional: bool,
)
    requires
        pair_entries(entries, offer, ask).len() == 0,
        bidirectional ==> offer != ask,
    ensures
        pair_entries(register_result(entries, offer, ask, path, bidirectional), offer, ask)
            == seq![PathEntryV { offer, ask, id: 1, path }],
{
    let e1 = PathEntryV { offer, ask, id: 1, path };
    lemma_pair_entries_push(entries, e1, offer, ask);
    let once = append_entry(entries, offer, ask, path);
    assert(once == entries.push(e1));
    assert(pair_entries(once, offer, ask) =~= seq![e1]);
    if bidirectional {
        let e2 = PathEntryV {
            offer: ask,
            ask: offer,
            id: (pair_entries(once, ask, offer).len() + 1) as u64,
            path: spec_reverse_ops(path),
        };
        lemma_pair_entries_push(once, e2, offer, ask);
        assert(!entry_matches(e2, offer, ask));
        assert(register_result(entries, offer, ask, path, bidirectional) == once.push(e2));
    }
}

/// Bidirectional registration stores under the mirrored pair exactly the
/// reverse path: hop i of the stored mirror is hop n-1-i of the original
/// with its offer and ask exchanged. No round trip through the venues is
/// claimed: reversal is a labeling transform only.
pub proof fn lemma_bidirectional_mirror(
    entries: Seq<PathEntryV>,
    offer: AssetInfoV,
    ask: AssetInfoV,
    path: Seq<SwapOperationV>,
)
    ensures
        ({
            let mirror = register_result(entries, offer, ask, path, true).last();
            &&& mirror.offer == ask
            &&& mirror.ask == offer
            &&& mirror.path.len() == path.len()
            &&& forall|i: int|
                0 <= i < path.len() ==> mirror.path[i] == swap_ends(path[path.len() - 1 - i])
        }),
{
}

/// The reverse of a valid hop list is valid, runs from the original ask
/// asset to the original offer asset, and is hop-for-hop the original in
/// reverse order with each hop's endpoints exchanged.
pub proof fn lemma_reverse_valid(ops: Seq<SwapOperationV>)
    requires
        valid_ops(ops),
    ensures
        valid_ops(spec_reverse_ops(ops)),
        spec_from(spec_reverse_ops(ops)) == spec_to(ops),
        spec_to(spec_reverse_ops(ops)) == spec_from(ops),
{
    let rev = spec_reverse_ops(ops);
    assert(rev.len() == ops.len());
    assert forall|i: int| 0 <= i && i + 1 < rev.len() implies rev[i].ask_asset_info == rev[i
        + 1].offer_asset_info by {
        let n = ops.len();
        assert(ops[n - 2 - i].ask_asset_info == ops[n - 1 - i].offer_asset_info);
    }
}

} // verus!
