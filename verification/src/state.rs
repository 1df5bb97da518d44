//! The collection's persistent state: the indexed token store, its
//! secondary index, the token counter, the collection singletons and the
//! role registries, held together in one explicitly passed record.
//!
//! The primary store is a vector of token entries in strictly ascending
//! identifier order; the secondary index is a vector of `(owner, token id)`
//! pairs in strictly ascending pair order. Every mutation keeps the two
//! mirrored, as [`crate::model::TokenMapView::wf`] states.

use vstd::prelude::*;

use crate::error::ContractError;
use crate::lex::{str_cmp, CMP_EQ, CMP_GT, CMP_LT};
use crate::model::{
    find_token, has_id, insert_pair, insert_token, lemma_find_token_at, lemma_find_token_none,
    lemma_pair_lt_trichotomy, lemma_pair_not_in, lemma_pairs_sorted_from_adjacent,
    lemma_position_has_id, lemma_position_pair_in, lemma_tokens_sorted_from_adjacent,
    lemma_wf_insert, lemma_wf_remove, lemma_wf_update, pair_lt, pair_of, remove_pair,
    remove_token, sorted_index, sorted_tokens, update_ext, IndexEntryView, NftInfoView,
    TokenEntryView, TokenMapView,
};
use crate::types::{ConsumptionUnitData, CUConfig, CUConfigView, Timestamp};

verus! {

use vstd::pervasive::VecAdditionalExecFns;

/// Collection-level metadata, written at creation.
#[derive(Debug)]
pub struct CollectionInfo {
    pub name: String,
    pub symbol: String,
    pub updated_at: Timestamp,
}

/// Mathematical value of a [`CollectionInfo`].
#[verifier::ext_equal]
pub ghost struct CollectionInfoView {
    pub name: Seq<char>,
    pub symbol: Seq<char>,
    pub updated_at: Timestamp,
}

impl View for CollectionInfo {
    type V = CollectionInfoView;

    open spec fn view(&self) -> CollectionInfoView {
        CollectionInfoView { name: self.name@, symbol: self.symbol@, updated_at: self.updated_at }
    }
}

impl Clone for CollectionInfo {
    fn clone(&self) -> (r: Self)
        ensures
            r@ == self@,
    {
        CollectionInfo {
            name: self.name.clone(),
            symbol: self.symbol.clone(),
            updated_at: self.updated_at,
        }
    }
}

/// One stored token record: its owner and its payload.
#[derive(Debug)]
pub struct NftInfo {
    /// The identity owning the token.
    pub owner: String,
    /// The domain payload carried by the token.
    pub extension: ConsumptionUnitData,
}

impl View for NftInfo {
    type V = NftInfoView;

    open spec fn view(&self) -> NftInfoView {
        NftInfoView { owner: self.owner@, extension: self.extension@ }
    }
}

impl Clone for NftInfo {
    fn clone(&self) -> (r: Self)
        ensures
            r@ == self@,
    {
        NftInfo { owner: self.owner.clone(), extension: self.extension.clone() }
    }
}

/// The index key under which a record is filed: its owner.
pub fn token_owner_idx(d: &NftInfo) -> (r: String)
    ensures
        r@ == d.owner@,
{
    d.owner.clone()
}

/// One entry of the primary store.
#[derive(Debug)]
pub struct TokenEntry {
    pub token_id: String,
    pub info: NftInfo,
}

impl View for TokenEntry {
    type V = TokenEntryView;

    open spec fn view(&self) -> TokenEntryView {
        TokenEntryView { token_id: self.token_id@, info: self.info@ }
    }
}

/// One entry of the secondary index.
#[derive(Debug)]
pub struct OwnerIndexEntry {
    pub owner: String,
    pub token_id: String,
}

impl View for OwnerIndexEntry {
    type V = IndexEntryView;

    open spec fn view(&self) -> IndexEntryView {
        IndexEntryView { owner: self.owner@, token_id: self.token_id@ }
    }
}

/// The secondary indexes of the token store. There is one: by owner.
#[derive(Debug)]
pub struct TokenIndexes {
    /// `(owner, token id)` pairs in strictly ascending pair order.
    pub owner: Vec<OwnerIndexEntry>,
}

/// Mathematical value of a primary-store vector.
pub open spec fn entries_view(v: Seq<TokenEntry>) -> Seq<TokenEntryView> {
    v.map_values(|e: TokenEntry| e@)
}

/// Mathematical value of a secondary-index vector.
pub open spec fn index_view(v: Seq<OwnerIndexEntry>) -> Seq<IndexEntryView> {
    v.map_values(|e: OwnerIndexEntry| e@)
}

/// The primary token store together with its secondary index.
#[derive(Debug)]
pub struct IndexedTokenMap {
    /// Token entries in strictly ascending identifier order.
    pub entries: Vec<TokenEntry>,
    /// The derived indexes, kept consistent with every mutation.
    pub idx: TokenIndexes,
}

impl View for IndexedTokenMap {
    type V = TokenMapView;

    open spec fn view(&self) -> TokenMapView {
        TokenMapView { tokens: entries_view(self.entries@), index: index_view(self.idx.owner@) }
    }
}

/// Position of the first entry whose identifier is not below `id`.
fn token_lower_bound(entries: &Vec<TokenEntry>, id: &str) -> (pos: usize)
    requires
        sorted_tokens(entries_view(entries@)),
    ensures
        pos <= entries.len(),
        forall|j: int|
            0 <= j < pos ==> crate::lex::lex_lt(
                #[trigger] entries_view(entries@)[j].token_id,
                id@,
            ),
        pos < entries.len() ==> !crate::lex::lex_lt(entries_view(entries@)[pos as int].token_id, id@),
{
    let n = entries.len();
    let mut i: usize = 0;
    while i < n
        invariant
            i <= n,
            n == entries.len(),
            forall|j: int|
                0 <= j < i ==> crate::lex::lex_lt(
                    #[trigger] entries_view(entries@)[j].token_id,
                    id@,
                ),
        decreases n - i,
    {
        if str_cmp(entries[i].token_id.as_str(), id) != CMP_LT {
            return i;
        }
        i = i + 1;
    }
    i
}

/// Position of the first index entry whose pair key is not below
/// `(owner, id)`.
fn pair_lower_bound(index: &Vec<OwnerIndexEntry>, owner: &str, id: &str) -> (pos: usize)
    requires
        sorted_index(index_view(index@)),
    ensures
        pos <= index.len(),
        forall|j: int|
            0 <= j < pos ==> pair_lt(
                #[trigger] index_view(index@)[j],
                (IndexEntryView { owner: owner@, token_id: id@ }),
            ),
        pos < index.len() ==> !pair_lt(
            index_view(index@)[pos as int],
            (IndexEntryView { owner: owner@, token_id: id@ }),
        ),
{
    let n = index.len();
    let mut i: usize = 0;
    while i < n
        invariant
            i <= n,
            n == index.len(),
            forall|j: int|
                0 <= j < i ==> pair_lt(
                    #[trigger] index_view(index@)[j],
                    (IndexEntryView { owner: owner@, token_id: id@ }),
                ),
        decreases n - i,
    {
        let c = str_cmp(index[i].owner.as_str(), owner);
        if c == CMP_GT {
            return i;
        }
        if c == CMP_EQ {
            if str_cmp(index[i].token_id.as_str(), id) != CMP_LT {
                return i;
            }
        }
        i = i + 1;
    }
    i
}

impl IndexedTokenMap {
    /// An empty store.
    pub fn new() -> (r: Self)
        ensures
            r@.tokens.len() == 0,
            r@.index.len() == 0,
            r@.wf(),
    {
        let r = IndexedTokenMap { entries: Vec::new(), idx: TokenIndexes { owner: Vec::new() } };
        proof {
            assert(r@.tokens =~= Seq::<TokenEntryView>::empty());
            assert(r@.index =~= Seq::<IndexEntryView>::empty());
        }
        r
    }

    /// Number of live records.
    pub fn len(&self) -> (n: usize)
        ensures
            n == self@.tokens.len(),
    {
        self.entries.len()
    }

    /// Creates a record under a fresh identifier and files its index entry,
    /// or reports `AlreadyExists` without any effect when the identifier is
    /// taken.
    pub fn insert(&mut self, token_id: String, info: NftInfo) -> (r: Result<(), ContractError>)
        requires
            old(self)@.wf(),
        ensures
            final(self)@.wf(),
            has_id(old(self)@.tokens, token_id@) ==> r == Err::<(), ContractError>(
                ContractError::AlreadyExists,
            ) && *final(self) == *old(self),
            !has_id(old(self)@.tokens, token_id@) ==> r == Ok::<(), ContractError>(())
                && final(self)@.tokens == insert_token(
                old(self)@.tokens,
                (TokenEntryView { token_id: token_id@, info: info@ }),
            ) && final(self)@.index == insert_pair(
                old(self)@.index,
                (IndexEntryView { owner: info.owner@, token_id: token_id@ }),
            ),
    {
        let ghost e = TokenEntryView { token_id: token_id@, info: info@ };
        let pos = token_lower_bound(&self.entries, token_id.as_str());
        if pos < self.entries.len() && str_cmp(
            self.entries[pos].token_id.as_str(),
            token_id.as_str(),
        ) == CMP_EQ {
            proof {
                lemma_position_has_id(self@.tokens, pos as int);
            }
            return Err(ContractError::AlreadyExists);
        }
        proof {
            if pos < self.entries.len() {
                crate::lex::lex_lt_trichotomy(token_id@, self@.tokens[pos as int].token_id);
            }
            lemma_find_token_none(self@.tokens, token_id@, pos as int);
        }
        let owner_copy = info.owner.clone();
        let ipos = pair_lower_bound(&self.idx.owner, owner_copy.as_str(), token_id.as_str());
        proof {
            lemma_wf_insert(self@, e, pos as int, ipos as int);
        }
        let id_copy = token_id.clone();
        self.entries.insert(pos, TokenEntry { token_id, info });
        self.idx.owner.insert(ipos, OwnerIndexEntry { owner: owner_copy, token_id: id_copy });
        proof {
            assert(self@.tokens =~= old(self)@.tokens.insert(pos as int, e));
            assert(self@.index =~= old(self)@.index.insert(
                ipos as int,
                (IndexEntryView { owner: e.info.owner, token_id: e.token_id }),
            ));
        }
        Ok(())
    }

    /// Returns the record stored under the identifier, or `NotFound`.
    pub fn load(&self, token_id: &String) -> (r: Result<&NftInfo, ContractError>)
        requires
            self@.wf(),
        ensures
            match find_token(self@.tokens, token_id@) {
                Some(i) => r matches Ok(info) && info@ == i,
                None => r == Err::<&NftInfo, ContractError>(ContractError::NotFound),
            },
    {
        let pos = token_lower_bound(&self.entries, token_id.as_str());
        if pos < self.entries.len() && str_cmp(
            self.entries[pos].token_id.as_str(),
            token_id.as_str(),
        ) == CMP_EQ {
            proof {
                lemma_find_token_at(self@.tokens, pos as int);
            }
            Ok(&self.entries[pos].info)
        } else {
            proof {
                if pos < self.entries.len() {
                    crate::lex::lex_lt_trichotomy(token_id@, self@.tokens[pos as int].token_id);
                }
                lemma_find_token_none(self@.tokens, token_id@, pos as int);
            }
            Err(ContractError::NotFound)
        }
    }

    /// Replaces the payload of the record stored under the identifier; the
    /// record's owner and the index are untouched. Reports `NotFound`
    /// without any effect when the identifier is absent.
    pub fn update_extension(&mut self, token_id: &String, extension: ConsumptionUnitData) -> (r:
        Result<(), ContractError>)
        requires
            old(self)@.wf(),
        ensures
            final(self)@.wf(),
            find_token(old(self)@.tokens, token_id@) is None ==> r == Err::<(), ContractError>(
                ContractError::NotFound,
            ) && *final(self) == *old(self),
            find_token(old(self)@.tokens, token_id@) is Some ==> r == Ok::<(), ContractError>(())
                && final(self)@.tokens == update_ext(old(self)@.tokens, token_id@, extension@)
                && final(self)@.index == old(self)@.index,
            final(self)@.tokens.len() == old(self)@.tokens.len(),
    {
        let pos = token_lower_bound(&self.entries, token_id.as_str());
        if pos < self.entries.len() && str_cmp(
            self.entries[pos].token_id.as_str(),
            token_id.as_str(),
        ) == CMP_EQ {
            proof {
                lemma_find_token_at(self@.tokens, pos as int);
                lemma_wf_update(self@, extension@, pos as int);
            }
            let owner = self.entries[pos].info.owner.clone();
            let id = self.entries[pos].token_id.clone();
            self.entries.set(pos, TokenEntry { token_id: id, info: NftInfo { owner, extension } });
            proof {
                assert(self@.tokens =~= update_ext(old(self)@.tokens, token_id@, extension@));
                assert(self@.index =~= old(self)@.index);
            }
            Ok(())
        } else {
            proof {
                if pos < self.entries.len() {
                    crate::lex::lex_lt_trichotomy(token_id@, self@.tokens[pos as int].token_id);
                }
                lemma_find_token_none(self@.tokens, token_id@, pos as int);
            }
            Err(ContractError::NotFound)
        }
    }

    /// Deletes the record stored under the identifier and its index entry.
    /// Reports `NotFound` without any effect when the identifier is absent.
    pub fn remove(&mut self, token_id: &String) -> (r: Result<(), ContractError>)
        requires
            old(self)@.wf(),
        ensures
            final(self)@.wf(),
            find_token(old(self)@.tokens, token_id@) is None ==> r == Err::<(), ContractError>(
                ContractError::NotFound,
            ) && *final(self) == *old(self),
            find_token(old(self)@.tokens, token_id@) matches Some(i) ==> r == Ok::<
                (),
                ContractError,
            >(()) && final(self)@.tokens == remove_token(old(self)@.tokens, token_id@)
                && final(self)@.index == remove_pair(old(self)@.index, i.owner, token_id@),
    {
        let pos = token_lower_bound(&self.entries, token_id.as_str());
        if pos < self.entries.len() && str_cmp(
            self.entries[pos].token_id.as_str(),
            token_id.as_str(),
        ) == CMP_EQ {
            proof {
                lemma_find_token_at(self@.tokens, pos as int);
            }
            let ipos = pair_lower_bound(
                &self.idx.owner,
                self.entries[pos].info.owner.as_str(),
                token_id.as_str(),
            );
            proof {
                lemma_index_entry_position(self@, pos as int, ipos as int);
                lemma_wf_remove(self@, pos as int, ipos as int);
            }
            self.entries.remove(pos);
            self.idx.owner.remove(ipos);
            proof {
                assert(self@.tokens =~= old(self)@.tokens.remove(pos as int));
                assert(self@.index =~= old(self)@.index.remove(ipos as int));
            }
            Ok(())
        } else {
            proof {
                if pos < self.entries.len() {
                    crate::lex::lex_lt_trichotomy(token_id@, self@.tokens[pos as int].token_id);
                }
                lemma_find_token_none(self@.tokens, token_id@, pos as int);
            }
            Err(ContractError::NotFound)
        }
    }
}

/// Whether each neighbouring pair of entries is in ascending identifier
/// order; over a whole vector this is exactly the store order.
#[verifier::rlimit(100)]
fn check_entries_sorted(entries: &Vec<TokenEntry>) -> (r: bool)
    ensures
        r == sorted_tokens(entries_view(entries@)),
{
    let n = entries.len();
    if n == 0 {
        return true;
    }
    let mut k: usize = 0;
    while k < n - 1
        invariant
            k <= n - 1,
            n == entries.len(),
            n > 0,
            forall|j: int|
                0 <= j < k ==> crate::lex::lex_lt(
                    (#[trigger] entries_view(entries@)[j]).token_id,
                    entries_view(entries@)[j + 1].token_id,
                ),
        decreases n - k,
    {
        if str_cmp(entries[k].token_id.as_str(), entries[k + 1].token_id.as_str()) != CMP_LT {
            proof {
                if sorted_tokens(entries_view(entries@)) {
                    assert(crate::lex::lex_lt(
                        entries_view(entries@)[k as int].token_id,
                        entries_view(entries@)[k as int + 1].token_id,
                    ));
                }
            }
            return false;
        }
        k = k + 1;
    }
    proof {
        lemma_tokens_sorted_from_adjacent(entries_view(entries@));
    }
    true
}

/// Whether each neighbouring pair of index entries is in ascending pair
/// order; over a whole vector this is exactly the index order.
fn check_index_sorted(index: &Vec<OwnerIndexEntry>) -> (r: bool)
    ensures
        r == sorted_index(index_view(index@)),
{
    let m = index.len();
    if m == 0 {
        return true;
    }
    let mut k: usize = 0;
    while k < m - 1
        invariant
            k <= m - 1,
            m == index.len(),
            m > 0,
            forall|j: int|
                0 <= j < k ==> pair_lt(
                    #[trigger] index_view(index@)[j],
                    index_view(index@)[j + 1],
                ),
        decreases m - k,
    {
        let c = str_cmp(index[k].owner.as_str(), index[k + 1].owner.as_str());
        let ordered = if c == CMP_LT {
            true
        } else if c == CMP_EQ {
            str_cmp(index[k].token_id.as_str(), index[k + 1].token_id.as_str()) == CMP_LT
        } else {
            false
        };
        if !ordered {
            proof {
                if sorted_index(index_view(index@)) {
                    assert(pair_lt(
                        index_view(index@)[k as int],
                        index_view(index@)[k as int + 1],
                    ));
                }
            }
            return false;
        }
        k = k + 1;
    }
    proof {
        lemma_pairs_sorted_from_adjacent(index_view(index@));
    }
    true
}

/// Whether every index entry points at a live record of that owner.
fn check_index_backed(entries: &Vec<TokenEntry>, index: &Vec<OwnerIndexEntry>) -> (r: bool)
    requires
        sorted_tokens(entries_view(entries@)),
    ensures
        r == (forall|l: int|
            0 <= l < index_view(index@).len() ==> (match find_token(
                entries_view(entries@),
                (#[trigger] index_view(index@)[l]).token_id,
            ) {
                Some(i) => i.owner == index_view(index@)[l].owner,
                None => false,
            })),
{
    let m = index.len();
    let mut l: usize = 0;
    while l < m
        invariant
            l <= m,
            m == index.len(),
            sorted_tokens(entries_view(entries@)),
            forall|l2: int|
                0 <= l2 < l ==> (match find_token(
                    entries_view(entries@),
                    (#[trigger] index_view(index@)[l2]).token_id,
                ) {
                    Some(i) => i.owner == index_view(index@)[l2].owner,
                    None => false,
                }),
        decreases m - l,
    {
        let pos = token_lower_bound(entries, index[l].token_id.as_str());
        if !(pos < entries.len() && str_cmp(
            entries[pos].token_id.as_str(),
            index[l].token_id.as_str(),
        ) == CMP_EQ) {
            proof {
                if pos < entries.len() {
                    crate::lex::lex_lt_trichotomy(
                        index_view(index@)[l as int].token_id,
                        entries_view(entries@)[pos as int].token_id,
                    );
                }
                lemma_find_token_none(
                    entries_view(entries@),
                    index_view(index@)[l as int].token_id,
                    pos as int,
                );
            }
            return false;
        }
        let owner_matches = entries[pos].info.owner == index[l].owner;
        proof {
            lemma_find_token_at(entries_view(entries@), pos as int);
        }
        if !owner_matches {
            return false;
        }
        l = l + 1;
    }
    true
}

/// Whether every record is filed in the index under its owner.
fn check_tokens_indexed(entries: &Vec<TokenEntry>, index: &Vec<OwnerIndexEntry>) -> (r: bool)
    requires
        sorted_index(index_view(index@)),
    ensures
        r == (forall|k: int|
            0 <= k < entries_view(entries@).len() ==> crate::model::pair_in(
                index_view(index@),
                (#[trigger] entries_view(entries@)[k]).info.owner,
                entries_view(entries@)[k].token_id,
            )),
{
    let n = entries.len();
    let mut k: usize = 0;
    while k < n
        invariant
            k <= n,
            n == entries.len(),
            sorted_index(index_view(index@)),
            forall|j: int|
                0 <= j < k ==> crate::model::pair_in(
                    index_view(index@),
                    (#[trigger] entries_view(entries@)[j]).info.owner,
                    entries_view(entries@)[j].token_id,
                ),
        decreases n - k,
    {
        let pos = pair_lower_bound(
            index,
            entries[k].info.owner.as_str(),
            entries[k].token_id.as_str(),
        );
        if !(pos < index.len() && index[pos].owner == entries[k].info.owner
            && index[pos].token_id == entries[k].token_id) {
            proof {
                let p = pair_of(entries_view(entries@)[k as int]);
                if pos < index.len() {
                    lemma_pair_lt_trichotomy(p, index_view(index@)[pos as int]);
                    crate::lex::lex_lt_irrefl(p.owner);
                    crate::lex::lex_lt_irrefl(p.token_id);
                }
                lemma_pair_not_in(index_view(index@), p.owner, p.token_id, pos as int);
            }
            return false;
        }
        proof {
            lemma_position_pair_in(index_view(index@), pos as int);
        }
        k = k + 1;
    }
    true
}

impl IndexedTokenMap {
    /// Checks the store's well-formedness: both orders and the mirror
    /// between the primary store and the index. Every value this crate's
    /// operations produce passes; the check lets an embedding validate a
    /// store that arrives from elsewhere.
    pub fn is_well_formed(&self) -> (r: bool)
        ensures
            r == self@.wf(),
    {
        if !check_entries_sorted(&self.entries) {
            return false;
        }
        if !check_index_sorted(&self.idx.owner) {
            return false;
        }
        if !check_index_backed(&self.entries, &self.idx.owner) {
            return false;
        }
        if !check_tokens_indexed(&self.entries, &self.idx.owner) {
            return false;
        }
        true
    }
}

/// The index entry of the record at `k` sits exactly at position `l`.
pub open spec fn pair_in_bound(m: TokenMapView, k: int, l: int) -> bool {
    0 <= l < m.index.len() && m.index[l] == pair_of(m.tokens[k])
}

/// At the lower bound of a record's pair key, a well-formed index holds
/// exactly that record's entry.
proof fn lemma_index_entry_position(m: TokenMapView, k: int, l: int)
    requires
        m.wf(),
        0 <= k < m.tokens.len(),
        0 <= l <= m.index.len(),
        forall|j: int| 0 <= j < l ==> pair_lt(#[trigger] m.index[j], pair_of(m.tokens[k])),
        l < m.index.len() ==> !pair_lt(m.index[l], pair_of(m.tokens[k])),
    ensures
        pair_in_bound(m, k, l),
{
    let p = pair_of(m.tokens[k]);
    assert(crate::model::pair_in(m.index, p.owner, p.token_id));
    crate::model::lemma_pair_in_position(m.index, p.owner, p.token_id);
    let w = choose|w: int|
        0 <= w < m.index.len() && (#[trigger] m.index[w]).owner == p.owner
            && m.index[w].token_id == p.token_id;
    assert(m.index[w] =~= p);
    if w < l {
        crate::lex::lex_lt_irrefl(p.owner);
        crate::lex::lex_lt_irrefl(p.token_id);
        assert(false);
    } else if w > l {
        assert(pair_lt(m.index[l], m.index[w]));
        assert(false);
    }
}

/// The registry of one role: its current holder and a pending transfer
/// proposal, exercised by an external ownership-transfer protocol.
#[derive(Debug)]
pub struct Ownership {
    /// The identity currently holding the role, once initialized.
    pub owner: Option<String>,
    /// An identity proposed to take the role over, if any.
    pub pending_owner: Option<String>,
}

/// Mathematical value of an [`Ownership`].
#[verifier::ext_equal]
pub ghost struct OwnershipView {
    pub owner: Option<Seq<char>>,
    pub pending_owner: Option<Seq<char>>,
}

impl View for Ownership {
    type V = OwnershipView;

    open spec fn view(&self) -> OwnershipView {
        OwnershipView {
            owner: match self.owner {
                Some(ref s) => Some(s@),
                None => None,
            },
            pending_owner: match self.pending_owner {
                Some(ref s) => Some(s@),
                None => None,
            },
        }
    }
}

impl Clone for Ownership {
    fn clone(&self) -> (r: Self)
        ensures
            r@ == self@,
    {
        Ownership {
            owner: match &self.owner {
                Some(s) => Some(s.clone()),
                None => None,
            },
            pending_owner: match &self.pending_owner {
                Some(s) => Some(s.clone()),
                None => None,
            },
        }
    }
}

/// The entire persistent state of one collection.
#[derive(Debug)]
pub struct Cw721Config {
    /// Collection metadata, written at creation.
    pub collection_info: Option<CollectionInfo>,
    /// Collection configuration, written at creation.
    pub collection_config: Option<CUConfig>,
    /// Number of live token records; always equals the store's size.
    pub token_count: u64,
    /// The indexed token store.
    pub nft_info: IndexedTokenMap,
    /// The registry of the minter role, the only role allowed to create
    /// records.
    pub minter: Ownership,
    /// The registry of the creator role, the only role allowed to update
    /// collection metadata.
    pub creator: Ownership,
}

/// Mathematical value of a [`Cw721Config`].
#[verifier::ext_equal]
pub ghost struct ConfigView {
    pub collection_info: Option<CollectionInfoView>,
    pub collection_config: Option<CUConfigView>,
    pub token_count: u64,
    pub nft_info: TokenMapView,
    pub minter: OwnershipView,
    pub creator: OwnershipView,
}

impl ConfigView {
    /// Well-formedness of the collection state: the indexed store is
    /// well-formed and the counter equals the number of live records.
    pub open spec fn wf(self) -> bool {
        &&& self.nft_info.wf()
        &&& self.token_count == self.nft_info.tokens.len()
    }
}

impl View for Cw721Config {
    type V = ConfigView;

    open spec fn view(&self) -> ConfigView {
        ConfigView {
            collection_info: match self.collection_info {
                Some(ref ci) => Some(ci@),
                None => None,
            },
            collection_config: match self.collection_config {
                Some(ref cc) => Some(cc@),
                None => None,
            },
            token_count: self.token_count,
            nft_info: self.nft_info@,
            minter: self.minter@,
            creator: self.creator@,
        }
    }
}

impl Default for Cw721Config {
    /// An empty collection: no metadata, no records, no roles.
    fn default() -> (c: Self)
        ensures
            c@.wf(),
            c@.collection_info is None,
            c@.collection_config is None,
            c@.token_count == 0,
            c@.nft_info.tokens.len() == 0,
            c@.nft_info.index.len() == 0,
            c@.minter == (OwnershipView { owner: None, pending_owner: None }),
            c@.creator == (OwnershipView { owner: None, pending_owner: None }),
    {
        Cw721Config {
            collection_info: None,
            collection_config: None,
            token_count: 0,
            nft_info: IndexedTokenMap::new(),
            minter: Ownership { owner: None, pending_owner: None },
            creator: Ownership { owner: None, pending_owner: None },
        }
    }
}

impl Cw721Config {
    /// The current number of live token records.
    pub fn token_count(&self) -> (n: u64)
        ensures
            n == self@.token_count,
    {
        self.token_count
    }

    /// Raises the token counter by one, paired with every record creation.
    pub fn increment_tokens(&mut self) -> (n: u64)
        requires
            old(self).token_count < u64::MAX,
        ensures
            n == final(self)@.token_count,
            final(self).token_count == old(self).token_count + 1,
            final(self).collection_info == old(self).collection_info,
            final(self).collection_config == old(self).collection_config,
            final(self).nft_info == old(self).nft_info,
            final(self).minter == old(self).minter,
            final(self).creator == old(self).creator,
    {
        self.token_count = self.token_count + 1;
        self.token_count
    }

    /// Lowers the token counter by one, paired with every record deletion.
    pub fn decrement_tokens(&mut self) -> (n: u64)
        requires
            old(self).token_count > 0,
        ensures
            n == final(self)@.token_count,
            final(self).token_count == old(self).token_count - 1,
            final(self).collection_info == old(self).collection_info,
            final(self).collection_config == old(self).collection_config,
            final(self).nft_info == old(self).nft_info,
            final(self).minter == old(self).minter,
            final(self).creator == old(self).creator,
    {
        self.token_count = self.token_count - 1;
        self.token_count
    }

    /// Checks the whole state's well-formedness: the indexed store is
    /// consistent and the counter equals the number of live records.
    pub fn is_well_formed(&self) -> (r: bool)
        ensures
            r == self@.wf(),
    {
        if !self.nft_info.is_well_formed() {
            return false;
        }
        let n = self.nft_info.len();
        self.token_count == n as u64
    }
}

} // verus!
