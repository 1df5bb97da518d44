//! Mathematical model of the indexed token store.
//!
//! The primary store is modelled as a sequence of token entries in strictly
//! ascending identifier order, and the secondary index as a sequence of
//! `(owner, token id)` pairs in strictly ascending pair order. The spec
//! functions below define lookup, sorted insertion, removal, in-place
//! extension update, and paginated listing over these sequences; the lemmas
//! relate them to each other and to positional sequence operations, which is
//! what the executable store is verified against.

use vstd::prelude::*;

use crate::lex::{lex_lt, lex_lt_asymmetry, lex_lt_irrefl, lex_lt_transitive, lex_lt_trichotomy};
use crate::types::ConsumptionUnitDataView;

verus! {

/// Mathematical value of a stored token record: its owner and payload.
#[verifier::ext_equal]
pub ghost struct NftInfoView {
    pub owner: Seq<char>,
    pub extension: ConsumptionUnitDataView,
}

/// Mathematical value of one primary-store entry.
#[verifier::ext_equal]
pub ghost struct TokenEntryView {
    pub token_id: Seq<char>,
    pub info: NftInfoView,
}

/// Mathematical value of one secondary-index entry.
#[verifier::ext_equal]
pub ghost struct IndexEntryView {
    pub owner: Seq<char>,
    pub token_id: Seq<char>,
}

/// Mathematical value of the indexed token store as a whole.
#[verifier::ext_equal]
pub ghost struct TokenMapView {
    pub tokens: Seq<TokenEntryView>,
    pub index: Seq<IndexEntryView>,
}

/// Order on secondary-index entries: by owner, then by token identifier.
pub open spec fn pair_lt(a: IndexEntryView, b: IndexEntryView) -> bool {
    lex_lt(a.owner, b.owner) || (a.owner == b.owner && lex_lt(a.token_id, b.token_id))
}

/// The primary store holds strictly ascending token identifiers.
pub open spec fn sorted_tokens(s: Seq<TokenEntryView>) -> bool {
    forall|i: int, j: int|
        0 <= i < j < s.len() ==> lex_lt(#[trigger] s[i].token_id, #[trigger] s[j].token_id)
}

/// The secondary index holds strictly ascending `(owner, token id)` pairs.
pub open spec fn sorted_index(s: Seq<IndexEntryView>) -> bool {
    forall|i: int, j: int| 0 <= i < j < s.len() ==> pair_lt(#[trigger] s[i], #[trigger] s[j])
}

/// A sequence of token identifiers is strictly ascending.
pub open spec fn sorted_ids(s: Seq<Seq<char>>) -> bool {
    forall|i: int, j: int| 0 <= i < j < s.len() ==> lex_lt(#[trigger] s[i], #[trigger] s[j])
}

/// Whether a record with the given identifier is present.
pub open spec fn has_id(s: Seq<TokenEntryView>, id: Seq<char>) -> bool
    decreases s.len(),
{
    s.len() > 0 && (s[0].token_id == id || has_id(s.drop_first(), id))
}

/// The record stored under the given identifier, if any.
pub open spec fn find_token(s: Seq<TokenEntryView>, id: Seq<char>) -> Option<NftInfoView>
    decreases s.len(),
{
    if s.len() == 0 {
        None
    } else if s[0].token_id == id {
        Some(s[0].info)
    } else {
        find_token(s.drop_first(), id)
    }
}

/// Insertion keeping the identifier order.
pub open spec fn insert_token(s: Seq<TokenEntryView>, e: TokenEntryView) -> Seq<TokenEntryView>
    decreases s.len(),
{
    if s.len() == 0 {
        seq![e]
    } else if lex_lt(e.token_id, s[0].token_id) {
        seq![e] + s
    } else {
        seq![s[0]] + insert_token(s.drop_first(), e)
    }
}

/// Removal of the record with the given identifier, if present.
pub open spec fn remove_token(s: Seq<TokenEntryView>, id: Seq<char>) -> Seq<TokenEntryView>
    decreases s.len(),
{
    if s.len() == 0 {
        s
    } else if s[0].token_id == id {
        s.drop_first()
    } else {
        seq![s[0]] + remove_token(s.drop_first(), id)
    }
}

/// Replacement of the stored payload under the given identifier; the owner
/// of the record is untouched.
pub open spec fn update_ext(
    s: Seq<TokenEntryView>,
    id: Seq<char>,
    x: ConsumptionUnitDataView,
) -> Seq<TokenEntryView>
    decreases s.len(),
{
    if s.len() == 0 {
        s
    } else if s[0].token_id == id {
        seq![
            (TokenEntryView {
                token_id: s[0].token_id,
                info: (NftInfoView { owner: s[0].info.owner, extension: x }),
            }),
        ] + s.drop_first()
    } else {
        seq![s[0]] + update_ext(s.drop_first(), id, x)
    }
}

/// Whether the index holds an entry for the given owner and identifier.
pub open spec fn pair_in(s: Seq<IndexEntryView>, owner: Seq<char>, id: Seq<char>) -> bool
    decreases s.len(),
{
    s.len() > 0 && ((s[0].owner == owner && s[0].token_id == id) || pair_in(
        s.drop_first(),
        owner,
        id,
    ))
}

/// Insertion keeping the pair order.
pub open spec fn insert_pair(s: Seq<IndexEntryView>, p: IndexEntryView) -> Seq<IndexEntryView>
    decreases s.len(),
{
    if s.len() == 0 {
        seq![p]
    } else if pair_lt(p, s[0]) {
        seq![p] + s
    } else {
        seq![s[0]] + insert_pair(s.drop_first(), p)
    }
}

/// Removal of the entry for the given owner and identifier, if present.
pub open spec fn remove_pair(
    s: Seq<IndexEntryView>,
    owner: Seq<char>,
    id: Seq<char>,
) -> Seq<IndexEntryView>
    decreases s.len(),
{
    if s.len() == 0 {
        s
    } else if s[0].owner == owner && s[0].token_id == id {
        s.drop_first()
    } else {
        seq![s[0]] + remove_pair(s.drop_first(), owner, id)
    }
}

/// Whether an identifier lies strictly after the pagination cursor.
pub open spec fn cursor_ok(after: Option<Seq<char>>, id: Seq<char>) -> bool {
    match after {
        None => true,
        Some(c) => lex_lt(c, id),
    }
}

/// Identifiers of the given owner's tokens lying strictly after the cursor,
/// in index order.
pub open spec fn owner_page(
    s: Seq<IndexEntryView>,
    owner: Seq<char>,
    after: Option<Seq<char>>,
) -> Seq<Seq<char>>
    decreases s.len(),
{
    if s.len() == 0 {
        Seq::empty()
    } else if s[0].owner == owner && cursor_ok(after, s[0].token_id) {
        seq![s[0].token_id] + owner_page(s.drop_first(), owner, after)
    } else {
        owner_page(s.drop_first(), owner, after)
    }
}

/// Identifiers of all tokens lying strictly after the cursor, in store
/// order.
pub open spec fn all_page(s: Seq<TokenEntryView>, after: Option<Seq<char>>) -> Seq<Seq<char>>
    decreases s.len(),
{
    if s.len() == 0 {
        Seq::empty()
    } else if cursor_ok(after, s[0].token_id) {
        seq![s[0].token_id] + all_page(s.drop_first(), after)
    } else {
        all_page(s.drop_first(), after)
    }
}

/// Identifiers of a listing lying strictly after the cursor.
pub open spec fn ids_after(ids: Seq<Seq<char>>, c: Seq<char>) -> Seq<Seq<char>>
    decreases ids.len(),
{
    if ids.len() == 0 {
        Seq::empty()
    } else if lex_lt(c, ids[0]) {
        seq![ids[0]] + ids_after(ids.drop_first(), c)
    } else {
        ids_after(ids.drop_first(), c)
    }
}

impl TokenMapView {
    /// Well-formedness of the indexed store: both sequences are strictly
    /// sorted, every index entry points at a live record of that owner, and
    /// every record is indexed under its owner.
    pub open spec fn wf(self) -> bool {
        &&& sorted_tokens(self.tokens)
        &&& sorted_index(self.index)
        &&& forall|k: int|
            0 <= k < self.index.len() ==> (match find_token(
                self.tokens,
                (#[trigger] self.index[k]).token_id,
            ) {
                Some(i) => i.owner == self.index[k].owner,
                None => false,
            })
        &&& forall|k: int|
            0 <= k < self.tokens.len() ==> pair_in(
                self.index,
                (#[trigger] self.tokens[k]).info.owner,
                self.tokens[k].token_id,
            )
    }
}

// ---------------------------------------------------------------------------
// Lemmas about the primary store.
// ---------------------------------------------------------------------------

/// Presence of an identifier is equivalent to a successful lookup.
pub proof fn lemma_find_has(s: Seq<TokenEntryView>, id: Seq<char>)
    ensures
        has_id(s, id) <==> find_token(s, id) is Some,
    decreases s.len(),
{
    if s.len() > 0 && s[0].token_id != id {
        lemma_find_has(s.drop_first(), id);
    }
}

/// Sorted insertion at the boundary position equals positional insertion.
pub proof fn lemma_insert_token_at(s: Seq<TokenEntryView>, e: TokenEntryView, k: int)
    requires
        0 <= k <= s.len(),
        forall|j: int| 0 <= j < k ==> lex_lt(#[trigger] s[j].token_id, e.token_id),
        k < s.len() ==> lex_lt(e.token_id, s[k].token_id),
    ensures
        insert_token(s, e) == s.insert(k, e),
    decreases s.len(),
{
    if s.len() == 0 {
        assert(insert_token(s, e) =~= s.insert(0, e));
    } else if k == 0 {
        assert(insert_token(s, e) =~= s.insert(0, e));
    } else {
        lemma_insert_token_at(s.drop_first(), e, k - 1);
        assert(!lex_lt(e.token_id, s[0].token_id)) by {
            lex_lt_asymmetry(e.token_id, s[0].token_id);
        }
        assert(seq![s[0]] + s.drop_first().insert(k - 1, e) =~= s.insert(k, e));
    }
}

/// Positional insertion between smaller and larger identifiers keeps the
/// store sorted.
pub proof fn lemma_sorted_insert_token(s: Seq<TokenEntryView>, e: TokenEntryView, k: int)
    requires
        sorted_tokens(s),
        0 <= k <= s.len(),
        forall|j: int| 0 <= j < k ==> lex_lt(#[trigger] s[j].token_id, e.token_id),
        k < s.len() ==> lex_lt(e.token_id, s[k].token_id),
    ensures
        sorted_tokens(s.insert(k, e)),
{
    let t = s.insert(k, e);
    assert forall|i: int, j: int| 0 <= i < j < t.len() implies lex_lt(
        t[i].token_id,
        t[j].token_id,
    ) by {
        if i == k && j > k {
            if j - 1 > k {
                lex_lt_transitive(e.token_id, s[k].token_id, s[j - 1].token_id);
            }
        } else if i < k && j == k {
        } else if i < k && j > k {
            if j - 1 > k {
                lex_lt_transitive(s[i].token_id, s[k].token_id, s[j - 1].token_id);
            }
        }
    }
}

/// Lookup after sorted insertion of a fresh identifier: the new record is
/// found under its identifier, everything else is unchanged.
pub proof fn lemma_find_insert_token(s: Seq<TokenEntryView>, e: TokenEntryView, x: Seq<char>)
    requires
        !has_id(s, e.token_id),
    ensures
        find_token(insert_token(s, e), x) == if x == e.token_id {
            Some(e.info)
        } else {
            find_token(s, x)
        },
    decreases s.len(),
{
    if s.len() == 0 {
        assert(insert_token(s, e).drop_first() =~= Seq::<TokenEntryView>::empty());
        assert(find_token(Seq::<TokenEntryView>::empty(), x) is None);
    } else if lex_lt(e.token_id, s[0].token_id) {
        let t = seq![e] + s;
        assert(t.drop_first() =~= s);
        assert(e.token_id != s[0].token_id) by {
            lex_lt_irrefl(e.token_id);
        }
    } else {
        let t = seq![s[0]] + insert_token(s.drop_first(), e);
        assert(t.drop_first() =~= insert_token(s.drop_first(), e));
        lemma_find_insert_token(s.drop_first(), e, x);
    }
}

/// Sorted insertion grows the store by exactly one entry.
pub proof fn lemma_insert_token_len(s: Seq<TokenEntryView>, e: TokenEntryView)
    ensures
        insert_token(s, e).len() == s.len() + 1,
    decreases s.len(),
{
    if s.len() > 0 && !lex_lt(e.token_id, s[0].token_id) {
        lemma_insert_token_len(s.drop_first(), e);
    }
}

/// Removal of the identifier found at position `k` of a sorted store equals
/// positional removal.
pub proof fn lemma_remove_token_at(s: Seq<TokenEntryView>, id: Seq<char>, k: int)
    requires
        sorted_tokens(s),
        0 <= k < s.len(),
        s[k].token_id == id,
    ensures
        remove_token(s, id) == s.remove(k),
    decreases s.len(),
{
    if k == 0 {
        assert(s.drop_first() =~= s.remove(0));
    } else {
        assert(s[0].token_id != id) by {
            lex_lt_irrefl(id);
        }
        lemma_remove_token_at(s.drop_first(), id, k - 1);
        assert(seq![s[0]] + s.drop_first().remove(k - 1) =~= s.remove(k));
    }
}

/// Positional removal keeps the store sorted.
pub proof fn lemma_sorted_remove_token(s: Seq<TokenEntryView>, k: int)
    requires
        sorted_tokens(s),
        0 <= k < s.len(),
    ensures
        sorted_tokens(s.remove(k)),
{
    let t = s.remove(k);
    assert forall|i: int, j: int| 0 <= i < j < t.len() implies lex_lt(
        t[i].token_id,
        t[j].token_id,
    ) by {
        let si = if i < k {
            i
        } else {
            i + 1
        };
        let sj = if j < k {
            j
        } else {
            j + 1
        };
        assert(t[i] == s[si]);
        assert(t[j] == s[sj]);
    }
}

/// Lookup after removal in a sorted store: the removed identifier is gone,
/// everything else is unchanged.
pub proof fn lemma_find_remove_token(s: Seq<TokenEntryView>, id: Seq<char>, x: Seq<char>)
    requires
        sorted_tokens(s),
    ensures
        find_token(remove_token(s, id), x) == if x == id {
            None::<NftInfoView>
        } else {
            find_token(s, x)
        },
    decreases s.len(),
{
    if s.len() == 0 {
    } else if s[0].token_id == id {
        assert(!has_id(s.drop_first(), id)) by {
            lemma_sorted_head_not_in_tail(s);
        }
        lemma_find_has(s.drop_first(), id);
    } else {
        let t = seq![s[0]] + remove_token(s.drop_first(), id);
        assert(t.drop_first() =~= remove_token(s.drop_first(), id));
        lemma_find_remove_token(s.drop_first(), id, x);
    }
}

/// In a sorted store the head identifier does not recur in the tail.
proof fn lemma_sorted_head_not_in_tail(s: Seq<TokenEntryView>)
    requires
        sorted_tokens(s),
        s.len() > 0,
    ensures
        !has_id(s.drop_first(), s[0].token_id),
{
    let id = s[0].token_id;
    if has_id(s.drop_first(), id) {
        lemma_has_id_position(s.drop_first(), id);
        let k = choose|k: int|
            0 <= k < s.drop_first().len() && s.drop_first()[k].token_id == id;
        assert(s[k + 1].token_id == id);
        assert(lex_lt(s[0].token_id, s[k + 1].token_id));
        lex_lt_irrefl(id);
    }
}

/// A present identifier occurs at some position.
pub proof fn lemma_has_id_position(s: Seq<TokenEntryView>, id: Seq<char>)
    requires
        has_id(s, id),
    ensures
        exists|k: int| 0 <= k < s.len() && (#[trigger] s[k]).token_id == id,
    decreases s.len(),
{
    if s[0].token_id == id {
        assert(s[0].token_id == id);
    } else {
        lemma_has_id_position(s.drop_first(), id);
        let k = choose|k: int|
            0 <= k < s.drop_first().len() && (#[trigger] s.drop_first()[k]).token_id == id;
        assert(s[k + 1].token_id == id);
    }
}

/// Removal shrinks the store by exactly one entry when the identifier is
/// present.
pub proof fn lemma_remove_token_len(s: Seq<TokenEntryView>, id: Seq<char>)
    requires
        has_id(s, id),
    ensures
        remove_token(s, id).len() == s.len() - 1,
    decreases s.len(),
{
    if s[0].token_id != id {
        lemma_remove_token_len(s.drop_first(), id);
    }
}

/// Payload replacement at position `k` of a sorted store equals positional
/// update.
pub proof fn lemma_update_ext_at(
    s: Seq<TokenEntryView>,
    id: Seq<char>,
    x: ConsumptionUnitDataView,
    k: int,
)
    requires
        sorted_tokens(s),
        0 <= k < s.len(),
        s[k].token_id == id,
    ensures
        update_ext(s, id, x) == s.update(
            k,
            (TokenEntryView {
                token_id: s[k].token_id,
                info: (NftInfoView { owner: s[k].info.owner, extension: x }),
            }),
        ),
    decreases s.len(),
{
    if k == 0 {
        assert(update_ext(s, id, x) =~= s.update(
            0,
            (TokenEntryView {
                token_id: s[0].token_id,
                info: (NftInfoView { owner: s[0].info.owner, extension: x }),
            }),
        ));
    } else {
        assert(s[0].token_id != id) by {
            lex_lt_irrefl(id);
        }
        lemma_update_ext_at(s.drop_first(), id, x, k - 1);
        assert(seq![s[0]] + s.drop_first().update(
            k - 1,
            (TokenEntryView {
                token_id: s[k].token_id,
                info: (NftInfoView { owner: s[k].info.owner, extension: x }),
            }),
        ) =~= s.update(
            k,
            (TokenEntryView {
                token_id: s[k].token_id,
                info: (NftInfoView { owner: s[k].info.owner, extension: x }),
            }),
        ));
    }
}

/// Lookup after payload replacement in a sorted store.
pub proof fn lemma_find_update_ext(
    s: Seq<TokenEntryView>,
    id: Seq<char>,
    x: ConsumptionUnitDataView,
    q: Seq<char>,
)
    requires
        sorted_tokens(s),
    ensures
        find_token(update_ext(s, id, x), q) == if q == id {
            match find_token(s, id) {
                Some(i) => Some((NftInfoView { owner: i.owner, extension: x })),
                None => None,
            }
        } else {
            find_token(s, q)
        },
    decreases s.len(),
{
    if s.len() == 0 {
    } else if s[0].token_id == id {
        let e = TokenEntryView {
            token_id: s[0].token_id,
            info: (NftInfoView { owner: s[0].info.owner, extension: x }),
        };
        let t = seq![e] + s.drop_first();
        assert(t.drop_first() =~= s.drop_first());
    } else {
        let t = seq![s[0]] + update_ext(s.drop_first(), id, x);
        assert(t.drop_first() =~= update_ext(s.drop_first(), id, x));
        lemma_find_update_ext(s.drop_first(), id, x, q);
    }
}

// ---------------------------------------------------------------------------
// Lemmas about the secondary index.
// ---------------------------------------------------------------------------

/// Sorted pair insertion at the boundary position equals positional
/// insertion.
pub proof fn lemma_insert_pair_at(s: Seq<IndexEntryView>, p: IndexEntryView, k: int)
    requires
        0 <= k <= s.len(),
        forall|j: int| 0 <= j < k ==> pair_lt(#[trigger] s[j], p),
        k < s.len() ==> pair_lt(p, s[k]),
    ensures
        insert_pair(s, p) == s.insert(k, p),
    decreases s.len(),
{
    if s.len() == 0 {
        assert(insert_pair(s, p) =~= s.insert(0, p));
    } else if k == 0 {
        assert(insert_pair(s, p) =~= s.insert(0, p));
    } else {
        lemma_insert_pair_at(s.drop_first(), p, k - 1);
        assert(!pair_lt(p, s[0])) by {
            lemma_pair_lt_asymmetry(p, s[0]);
        }
        assert(seq![s[0]] + s.drop_first().insert(k - 1, p) =~= s.insert(k, p));
    }
}

/// The pair order is asymmetric.
pub proof fn lemma_pair_lt_asymmetry(a: IndexEntryView, b: IndexEntryView)
    ensures
        !(pair_lt(a, b) && pair_lt(b, a)),
{
    lex_lt_asymmetry(a.owner, b.owner);
    lex_lt_asymmetry(a.token_id, b.token_id);
    lex_lt_irrefl(a.owner);
    lex_lt_irrefl(b.owner);
}

/// The pair order is transitive.
pub proof fn lemma_pair_lt_transitive(a: IndexEntryView, b: IndexEntryView, c: IndexEntryView)
    requires
        pair_lt(a, b),
        pair_lt(b, c),
    ensures
        pair_lt(a, c),
{
    if lex_lt(a.owner, b.owner) && lex_lt(b.owner, c.owner) {
        lex_lt_transitive(a.owner, b.owner, c.owner);
    } else if a.owner == b.owner && b.owner == c.owner {
        lex_lt_transitive(a.token_id, b.token_id, c.token_id);
    }
}

/// Any two distinct pairs are ordered one way or the other.
pub proof fn lemma_pair_lt_trichotomy(a: IndexEntryView, b: IndexEntryView)
    ensures
        pair_lt(a, b) || pair_lt(b, a) || a == b,
{
    lex_lt_trichotomy(a.owner, b.owner);
    lex_lt_trichotomy(a.token_id, b.token_id);
}

/// Positional pair insertion between smaller and larger pairs keeps the
/// index sorted.
pub proof fn lemma_sorted_insert_pair(s: Seq<IndexEntryView>, p: IndexEntryView, k: int)
    requires
        sorted_index(s),
        0 <= k <= s.len(),
        forall|j: int| 0 <= j < k ==> pair_lt(#[trigger] s[j], p),
        k < s.len() ==> pair_lt(p, s[k]),
    ensures
        sorted_index(s.insert(k, p)),
{
    let t = s.insert(k, p);
    assert forall|i: int, j: int| 0 <= i < j < t.len() implies pair_lt(t[i], t[j]) by {
        if i == k && j > k {
            if j - 1 > k {
                lemma_pair_lt_transitive(p, s[k], s[j - 1]);
            }
        } else if i < k && j == k {
        } else if i < k && j > k {
            if j - 1 > k {
                lemma_pair_lt_transitive(s[i], s[k], s[j - 1]);
            }
        }
    }
}

/// Index membership after sorted pair insertion.
pub proof fn lemma_pair_in_insert(
    s: Seq<IndexEntryView>,
    p: IndexEntryView,
    o: Seq<char>,
    id: Seq<char>,
)
    ensures
        pair_in(insert_pair(s, p), o, id) <==> ((o == p.owner && id == p.token_id) || pair_in(
            s,
            o,
            id,
        )),
    decreases s.len(),
{
    if s.len() == 0 {
        assert(insert_pair(s, p).drop_first() =~= Seq::<IndexEntryView>::empty());
        assert(!pair_in(Seq::<IndexEntryView>::empty(), o, id));
    } else if pair_lt(p, s[0]) {
        let t = seq![p] + s;
        assert(t.drop_first() =~= s);
    } else {
        let t = seq![s[0]] + insert_pair(s.drop_first(), p);
        assert(t.drop_first() =~= insert_pair(s.drop_first(), p));
        lemma_pair_in_insert(s.drop_first(), p, o, id);
    }
}

/// Removal of the pair found at position `k` of a sorted index equals
/// positional removal.
pub proof fn lemma_remove_pair_at(s: Seq<IndexEntryView>, o: Seq<char>, id: Seq<char>, k: int)
    requires
        sorted_index(s),
        0 <= k < s.len(),
        s[k].owner == o,
        s[k].token_id == id,
    ensures
        remove_pair(s, o, id) == s.remove(k),
    decreases s.len(),
{
    if k == 0 {
        assert(s.drop_first() =~= s.remove(0));
    } else {
        assert(!(s[0].owner == o && s[0].token_id == id)) by {
            lemma_pair_lt_asymmetry(s[0], s[k]);
            lex_lt_irrefl(o);
            lex_lt_irrefl(id);
        }
        lemma_remove_pair_at(s.drop_first(), o, id, k - 1);
        assert(seq![s[0]] + s.drop_first().remove(k - 1) =~= s.remove(k));
    }
}

/// Positional removal keeps the index sorted.
pub proof fn lemma_sorted_remove_pair(s: Seq<IndexEntryView>, k: int)
    requires
        sorted_index(s),
        0 <= k < s.len(),
    ensures
        sorted_index(s.remove(k)),
{
    let t = s.remove(k);
    assert forall|i: int, j: int| 0 <= i < j < t.len() implies pair_lt(t[i], t[j]) by {
        let si = if i < k {
            i
        } else {
            i + 1
        };
        let sj = if j < k {
            j
        } else {
            j + 1
        };
        assert(t[i] == s[si]);
        assert(t[j] == s[sj]);
    }
}

/// Index membership after removal from a sorted index.
pub proof fn lemma_pair_in_remove(
    s: Seq<IndexEntryView>,
    o: Seq<char>,
    id: Seq<char>,
    o2: Seq<char>,
    id2: Seq<char>,
)
    requires
        sorted_index(s),
    ensures
        pair_in(remove_pair(s, o, id), o2, id2) <==> (pair_in(s, o2, id2) && !(o2 == o && id2
            == id)),
    decreases s.len(),
{
    if s.len() == 0 {
    } else if s[0].owner == o && s[0].token_id == id {
        lemma_sorted_head_pair_not_in_tail(s);
    } else {
        let t = seq![s[0]] + remove_pair(s.drop_first(), o, id);
        assert(t.drop_first() =~= remove_pair(s.drop_first(), o, id));
        lemma_pair_in_remove(s.drop_first(), o, id, o2, id2);
    }
}

/// In a sorted index the head pair does not recur in the tail.
proof fn lemma_sorted_head_pair_not_in_tail(s: Seq<IndexEntryView>)
    requires
        sorted_index(s),
        s.len() > 0,
    ensures
        !pair_in(s.drop_first(), s[0].owner, s[0].token_id),
{
    if pair_in(s.drop_first(), s[0].owner, s[0].token_id) {
        lemma_pair_in_position(s.drop_first(), s[0].owner, s[0].token_id);
        let k = choose|k: int|
            0 <= k < s.drop_first().len() && (#[trigger] s.drop_first()[k]).owner == s[0].owner
                && s.drop_first()[k].token_id == s[0].token_id;
        assert(pair_lt(s[0], s[k + 1]));
        lex_lt_irrefl(s[0].owner);
        lex_lt_irrefl(s[0].token_id);
    }
}

/// A present pair occurs at some position.
pub proof fn lemma_pair_in_position(s: Seq<IndexEntryView>, o: Seq<char>, id: Seq<char>)
    requires
        pair_in(s, o, id),
    ensures
        exists|k: int|
            0 <= k < s.len() && (#[trigger] s[k]).owner == o && s[k].token_id == id,
    decreases s.len(),
{
    if s[0].owner == o && s[0].token_id == id {
        assert(s[0].owner == o && s[0].token_id == id);
    } else {
        lemma_pair_in_position(s.drop_first(), o, id);
        let k = choose|k: int|
            0 <= k < s.drop_first().len() && (#[trigger] s.drop_first()[k]).owner == o
                && s.drop_first()[k].token_id == id;
        assert(s[k + 1].owner == o && s[k + 1].token_id == id);
    }
}

// ---------------------------------------------------------------------------
// Well-formedness preservation of the indexed store.
// ---------------------------------------------------------------------------

/// The index entry under which a record is filed.
pub open spec fn pair_of(e: TokenEntryView) -> IndexEntryView {
    IndexEntryView { owner: e.info.owner, token_id: e.token_id }
}

/// An identifier stored at some position is present.
pub proof fn lemma_position_has_id(s: Seq<TokenEntryView>, k: int)
    requires
        0 <= k < s.len(),
    ensures
        has_id(s, s[k].token_id),
    decreases k,
{
    if k > 0 {
        lemma_position_has_id(s.drop_first(), k - 1);
        assert(s.drop_first()[k - 1] == s[k]);
    }
}

/// Lookup of the identifier stored at position `k` of a sorted store.
pub proof fn lemma_find_token_at(s: Seq<TokenEntryView>, k: int)
    requires
        sorted_tokens(s),
        0 <= k < s.len(),
    ensures
        find_token(s, s[k].token_id) == Some(s[k].info),
    decreases k,
{
    if k == 0 {
    } else {
        assert(s[0].token_id != s[k].token_id) by {
            lex_lt_irrefl(s[k].token_id);
        }
        lemma_find_token_at(s.drop_first(), k - 1);
        assert(s.drop_first()[k - 1] == s[k]);
    }
}

/// An identifier bracketed by the entries around position `pos` of a sorted
/// store is absent.
pub proof fn lemma_find_token_none(s: Seq<TokenEntryView>, id: Seq<char>, pos: int)
    requires
        sorted_tokens(s),
        0 <= pos <= s.len(),
        forall|j: int| 0 <= j < pos ==> lex_lt(#[trigger] s[j].token_id, id),
        pos < s.len() ==> lex_lt(id, s[pos].token_id),
    ensures
        find_token(s, id) is None,
        !has_id(s, id),
    decreases s.len(),
{
    if s.len() > 0 {
        assert(s[0].token_id != id) by {
            if pos == 0 {
                lex_lt_asymmetry(id, s[0].token_id);
                lex_lt_irrefl(id);
            } else {
                lex_lt_irrefl(id);
            }
        }
        if pos == 0 {
            assert forall|j: int| 0 <= j < 0 implies lex_lt(
                #[trigger] s.drop_first()[j].token_id,
                id,
            ) by {}
            if s.len() > 1 {
                lex_lt_transitive(id, s[0].token_id, s[1].token_id);
                assert(s.drop_first()[0] == s[1]);
            }
            lemma_find_token_none(s.drop_first(), id, 0);
        } else {
            assert forall|j: int| 0 <= j < pos - 1 implies lex_lt(
                #[trigger] s.drop_first()[j].token_id,
                id,
            ) by {
                assert(s.drop_first()[j] == s[j + 1]);
            }
            if pos - 1 < s.drop_first().len() {
                assert(s.drop_first()[pos - 1] == s[pos]);
            }
            lemma_find_token_none(s.drop_first(), id, pos - 1);
        }
    }
}

/// A pair stored at some position is present.
pub proof fn lemma_position_pair_in(s: Seq<IndexEntryView>, k: int)
    requires
        0 <= k < s.len(),
    ensures
        pair_in(s, s[k].owner, s[k].token_id),
    decreases k,
{
    if k > 0 {
        lemma_position_pair_in(s.drop_first(), k - 1);
        assert(s.drop_first()[k - 1] == s[k]);
    }
}

/// Inserting a fresh record at its boundary positions keeps the indexed
/// store well-formed and relates the result to sorted insertion.
pub proof fn lemma_wf_insert(m: TokenMapView, e: TokenEntryView, k: int, l: int)
    requires
        m.wf(),
        !has_id(m.tokens, e.token_id),
        0 <= k <= m.tokens.len(),
        forall|j: int| 0 <= j < k ==> lex_lt(#[trigger] m.tokens[j].token_id, e.token_id),
        k < m.tokens.len() ==> lex_lt(e.token_id, m.tokens[k].token_id),
        0 <= l <= m.index.len(),
        forall|j: int| 0 <= j < l ==> pair_lt(#[trigger] m.index[j], pair_of(e)),
        l < m.index.len() ==> !pair_lt(m.index[l], pair_of(e)),
    ensures
        insert_token(m.tokens, e) == m.tokens.insert(k, e),
        insert_pair(m.index, pair_of(e)) == m.index.insert(l, pair_of(e)),
        (TokenMapView {
            tokens: insert_token(m.tokens, e),
            index: insert_pair(m.index, pair_of(e)),
        }).wf(),
{
    let p = pair_of(e);
    let tokens2 = m.tokens.insert(k, e);
    let index2 = m.index.insert(l, p);
    lemma_insert_token_at(m.tokens, e, k);
    lemma_sorted_insert_token(m.tokens, e, k);
    if l < m.index.len() {
        assert(pair_lt(p, m.index[l])) by {
            if m.index[l] == p {
                lemma_position_pair_in(m.index, l);
                lemma_find_has(m.tokens, e.token_id);
            } else {
                lemma_pair_lt_trichotomy(p, m.index[l]);
            }
        }
    }
    lemma_insert_pair_at(m.index, p, l);
    lemma_sorted_insert_pair(m.index, p, l);
    assert forall|k2: int| 0 <= k2 < index2.len() implies (match find_token(
        tokens2,
        (#[trigger] index2[k2]).token_id,
    ) {
        Some(i) => i.owner == index2[k2].owner,
        None => false,
    }) by {
        if k2 == l {
            lemma_find_insert_token(m.tokens, e, e.token_id);
        } else {
            let q = if k2 < l {
                m.index[k2]
            } else {
                m.index[k2 - 1]
            };
            assert(index2[k2] == q);
            assert(q.token_id != e.token_id) by {
                lemma_find_has(m.tokens, q.token_id);
            }
            lemma_find_insert_token(m.tokens, e, q.token_id);
        }
    }
    assert forall|k2: int| 0 <= k2 < tokens2.len() implies pair_in(
        index2,
        (#[trigger] tokens2[k2]).info.owner,
        tokens2[k2].token_id,
    ) by {
        if k2 == k {
            lemma_pair_in_insert(m.index, p, e.info.owner, e.token_id);
        } else {
            let t = if k2 < k {
                m.tokens[k2]
            } else {
                m.tokens[k2 - 1]
            };
            assert(tokens2[k2] == t);
            lemma_pair_in_insert(m.index, p, t.info.owner, t.token_id);
        }
    }
}

/// Removing the record at position `k` and its index entry at position `l`
/// keeps the indexed store well-formed and relates the result to removal by
/// identifier.
pub proof fn lemma_wf_remove(m: TokenMapView, k: int, l: int)
    requires
        m.wf(),
        0 <= k < m.tokens.len(),
        0 <= l < m.index.len(),
        m.index[l] == pair_of(m.tokens[k]),
    ensures
        remove_token(m.tokens, m.tokens[k].token_id) == m.tokens.remove(k),
        remove_pair(m.index, m.tokens[k].info.owner, m.tokens[k].token_id) == m.index.remove(l),
        (TokenMapView { tokens: m.tokens.remove(k), index: m.index.remove(l) }).wf(),
{
    let id = m.tokens[k].token_id;
    let o = m.tokens[k].info.owner;
    let tokens2 = m.tokens.remove(k);
    let index2 = m.index.remove(l);
    lemma_remove_token_at(m.tokens, id, k);
    lemma_sorted_remove_token(m.tokens, k);
    lemma_remove_pair_at(m.index, o, id, l);
    lemma_sorted_remove_pair(m.index, l);
    assert forall|k2: int| 0 <= k2 < index2.len() implies (match find_token(
        tokens2,
        (#[trigger] index2[k2]).token_id,
    ) {
        Some(i) => i.owner == index2[k2].owner,
        None => false,
    }) by {
        let q = if k2 < l {
            m.index[k2]
        } else {
            m.index[k2 + 1]
        };
        assert(index2[k2] == q);
        assert(q.token_id != id) by {
            if q.token_id == id {
                lemma_find_token_at(m.tokens, k);
                assert(q.owner == o);
                let lq = if k2 < l {
                    k2
                } else {
                    k2 + 1
                };
                if lq < l {
                    lemma_pair_lt_asymmetry(m.index[lq], m.index[l]);
                } else {
                    lemma_pair_lt_asymmetry(m.index[l], m.index[lq]);
                }
                lex_lt_irrefl(o);
                lex_lt_irrefl(id);
            }
        }
        lemma_find_remove_token(m.tokens, id, q.token_id);
    }
    assert forall|k2: int| 0 <= k2 < tokens2.len() implies pair_in(
        index2,
        (#[trigger] tokens2[k2]).info.owner,
        tokens2[k2].token_id,
    ) by {
        let t = if k2 < k {
            m.tokens[k2]
        } else {
            m.tokens[k2 + 1]
        };
        assert(tokens2[k2] == t);
        assert(t.token_id != id) by {
            let tk = if k2 < k {
                k2
            } else {
                k2 + 1
            };
            if tk < k {
                lex_lt_irrefl(m.tokens[k].token_id);
                lex_lt_asymmetry(m.tokens[tk].token_id, m.tokens[k].token_id);
            } else {
                lex_lt_irrefl(m.tokens[k].token_id);
                lex_lt_asymmetry(m.tokens[k].token_id, m.tokens[tk].token_id);
            }
        }
        lemma_pair_in_remove(m.index, o, id, t.info.owner, t.token_id);
    }
}

/// Replacing the payload of the record at position `k` keeps the indexed
/// store well-formed; the index is untouched.
pub proof fn lemma_wf_update(m: TokenMapView, x: ConsumptionUnitDataView, k: int)
    requires
        m.wf(),
        0 <= k < m.tokens.len(),
    ensures
        update_ext(m.tokens, m.tokens[k].token_id, x) == m.tokens.update(
            k,
            (TokenEntryView {
                token_id: m.tokens[k].token_id,
                info: (NftInfoView { owner: m.tokens[k].info.owner, extension: x }),
            }),
        ),
        (TokenMapView {
            tokens: update_ext(m.tokens, m.tokens[k].token_id, x),
            index: m.index,
        }).wf(),
{
    let id = m.tokens[k].token_id;
    lemma_update_ext_at(m.tokens, id, x, k);
    let tokens2 = m.tokens.update(
        k,
        (TokenEntryView {
            token_id: id,
            info: (NftInfoView { owner: m.tokens[k].info.owner, extension: x }),
        }),
    );
    assert(sorted_tokens(tokens2)) by {
        assert forall|i: int, j: int| 0 <= i < j < tokens2.len() implies lex_lt(
            tokens2[i].token_id,
            tokens2[j].token_id,
        ) by {
            assert(tokens2[i].token_id == m.tokens[i].token_id);
            assert(tokens2[j].token_id == m.tokens[j].token_id);
        }
    }
    lemma_find_token_at(m.tokens, k);
    assert forall|k2: int| 0 <= k2 < m.index.len() implies (match find_token(
        tokens2,
        (#[trigger] m.index[k2]).token_id,
    ) {
        Some(i) => i.owner == m.index[k2].owner,
        None => false,
    }) by {
        lemma_find_update_ext(m.tokens, id, x, m.index[k2].token_id);
    }
    assert forall|k2: int| 0 <= k2 < tokens2.len() implies pair_in(
        m.index,
        (#[trigger] tokens2[k2]).info.owner,
        tokens2[k2].token_id,
    ) by {
        assert(tokens2[k2].info.owner == m.tokens[k2].info.owner);
        assert(tokens2[k2].token_id == m.tokens[k2].token_id);
    }
}

/// Order between each neighbouring pair of entries gives the global order.
pub proof fn lemma_tokens_sorted_from_adjacent(s: Seq<TokenEntryView>)
    requires
        forall|k: int|
            0 <= k < s.len() - 1 ==> lex_lt(#[trigger] s[k].token_id, s[k + 1].token_id),
    ensures
        sorted_tokens(s),
{
    assert forall|i: int, j: int| 0 <= i < j < s.len() implies lex_lt(
        s[i].token_id,
        s[j].token_id,
    ) by {
        lemma_token_lt_span(s, i, j);
    }
}

/// Neighbouring order carried across a span.
proof fn lemma_token_lt_span(s: Seq<TokenEntryView>, i: int, j: int)
    requires
        forall|k: int|
            0 <= k < s.len() - 1 ==> lex_lt(#[trigger] s[k].token_id, s[k + 1].token_id),
        0 <= i < j < s.len(),
    ensures
        lex_lt(s[i].token_id, s[j].token_id),
    decreases j - i,
{
    if j > i + 1 {
        lemma_token_lt_span(s, i, j - 1);
        lex_lt_transitive(s[i].token_id, s[j - 1].token_id, s[j].token_id);
    }
}

/// Order between each neighbouring pair of index entries gives the global
/// order.
pub proof fn lemma_pairs_sorted_from_adjacent(s: Seq<IndexEntryView>)
    requires
        forall|k: int| 0 <= k < s.len() - 1 ==> pair_lt(#[trigger] s[k], s[k + 1]),
    ensures
        sorted_index(s),
{
    assert forall|i: int, j: int| 0 <= i < j < s.len() implies pair_lt(s[i], s[j]) by {
        lemma_pair_lt_span(s, i, j);
    }
}

/// Neighbouring pair order carried across a span.
proof fn lemma_pair_lt_span(s: Seq<IndexEntryView>, i: int, j: int)
    requires
        forall|k: int| 0 <= k < s.len() - 1 ==> pair_lt(#[trigger] s[k], s[k + 1]),
        0 <= i < j < s.len(),
    ensures
        pair_lt(s[i], s[j]),
    decreases j - i,
{
    if j > i + 1 {
        lemma_pair_lt_span(s, i, j - 1);
        lemma_pair_lt_transitive(s[i], s[j - 1], s[j]);
    }
}

/// A pair bracketed by the entries around position `pos` of a sorted index
/// is absent.
pub proof fn lemma_pair_not_in(s: Seq<IndexEntryView>, o: Seq<char>, id: Seq<char>, pos: int)
    requires
        sorted_index(s),
        0 <= pos <= s.len(),
        forall|j: int|
            0 <= j < pos ==> pair_lt(#[trigger] s[j], (IndexEntryView { owner: o, token_id: id })),
        pos < s.len() ==> pair_lt((IndexEntryView { owner: o, token_id: id }), s[pos]),
    ensures
        !pair_in(s, o, id),
    decreases s.len(),
{
    let p = IndexEntryView { owner: o, token_id: id };
    if s.len() > 0 {
        assert(!(s[0].owner == o && s[0].token_id == id)) by {
            if pos == 0 {
                lemma_pair_lt_asymmetry(p, s[0]);
                lex_lt_irrefl(o);
                lex_lt_irrefl(id);
            } else {
                lex_lt_irrefl(o);
                lex_lt_irrefl(id);
            }
        }
        if pos == 0 {
            if s.len() > 1 {
                lemma_pair_lt_transitive(p, s[0], s[1]);
                assert(s.drop_first()[0] == s[1]);
            }
            lemma_pair_not_in(s.drop_first(), o, id, 0);
        } else {
            assert forall|j: int| 0 <= j < pos - 1 implies pair_lt(
                #[trigger] s.drop_first()[j],
                p,
            ) by {
                assert(s.drop_first()[j] == s[j + 1]);
            }
            if pos - 1 < s.drop_first().len() {
                assert(s.drop_first()[pos - 1] == s[pos]);
            }
            lemma_pair_not_in(s.drop_first(), o, id, pos - 1);
        }
    }
}

// ---------------------------------------------------------------------------
// Lemmas about paginated listings.
// ---------------------------------------------------------------------------

/// A listing distributes over concatenation of index segments.
pub proof fn lemma_owner_page_concat(
    a: Seq<IndexEntryView>,
    b: Seq<IndexEntryView>,
    owner: Seq<char>,
    after: Option<Seq<char>>,
)
    ensures
        owner_page(a + b, owner, after) == owner_page(a, owner, after) + owner_page(
            b,
            owner,
            after,
        ),
    decreases a.len(),
{
    if a.len() == 0 {
        assert(a + b =~= b);
        assert(owner_page(a, owner, after) + owner_page(b, owner, after) =~= owner_page(
            b,
            owner,
            after,
        ));
    } else {
        assert((a + b).drop_first() =~= a.drop_first() + b);
        lemma_owner_page_concat(a.drop_first(), b, owner, after);
        assert(owner_page(a + b, owner, after) =~= owner_page(a, owner, after) + owner_page(
            b,
            owner,
            after,
        ));
    }
}

/// A listing distributes over concatenation of store segments.
pub proof fn lemma_all_page_concat(
    a: Seq<TokenEntryView>,
    b: Seq<TokenEntryView>,
    after: Option<Seq<char>>,
)
    ensures
        all_page(a + b, after) == all_page(a, after) + all_page(b, after),
    decreases a.len(),
{
    if a.len() == 0 {
        assert(a + b =~= b);
        assert(all_page(a, after) + all_page(b, after) =~= all_page(b, after));
    } else {
        assert((a + b).drop_first() =~= a.drop_first() + b);
        lemma_all_page_concat(a.drop_first(), b, after);
        assert(all_page(a + b, after) =~= all_page(a, after) + all_page(b, after));
    }
}

/// Every identifier of an owner's listing is indexed for that owner and
/// lies strictly after the cursor.
pub proof fn lemma_owner_page_entries(
    s: Seq<IndexEntryView>,
    owner: Seq<char>,
    after: Option<Seq<char>>,
)
    ensures
        forall|i: int|
            0 <= i < owner_page(s, owner, after).len() ==> pair_in(
                s,
                owner,
                #[trigger] owner_page(s, owner, after)[i],
            ) && cursor_ok(after, owner_page(s, owner, after)[i]),
    decreases s.len(),
{
    if s.len() > 0 {
        lemma_owner_page_entries(s.drop_first(), owner, after);
        let page = owner_page(s, owner, after);
        let rest = owner_page(s.drop_first(), owner, after);
        assert forall|i: int| 0 <= i < page.len() implies pair_in(s, owner, page[i])
            && cursor_ok(after, page[i]) by {
            if s[0].owner == owner && cursor_ok(after, s[0].token_id) {
                if i > 0 {
                    assert(page[i] == rest[i - 1]);
                }
            } else {
                assert(page[i] == rest[i]);
            }
        }
    }
}

/// An owner's listing over a sorted index is strictly ascending.
pub proof fn lemma_owner_page_sorted(
    s: Seq<IndexEntryView>,
    owner: Seq<char>,
    after: Option<Seq<char>>,
)
    requires
        sorted_index(s),
    ensures
        sorted_ids(owner_page(s, owner, after)),
    decreases s.len(),
{
    if s.len() > 0 {
        lemma_owner_page_sorted(s.drop_first(), owner, after);
        let page = owner_page(s, owner, after);
        let rest = owner_page(s.drop_first(), owner, after);
        if s[0].owner == owner && cursor_ok(after, s[0].token_id) {
            lemma_owner_page_entries(s.drop_first(), owner, after);
            assert forall|i: int, j: int| 0 <= i < j < page.len() implies lex_lt(
                page[i],
                page[j],
            ) by {
                if i == 0 {
                    assert(page[j] == rest[j - 1]);
                    assert(pair_in(s.drop_first(), owner, rest[j - 1]));
                    lemma_pair_in_position(s.drop_first(), owner, rest[j - 1]);
                    let k = choose|k: int|
                        0 <= k < s.drop_first().len() && (#[trigger] s.drop_first()[k]).owner
                            == owner && s.drop_first()[k].token_id == rest[j - 1];
                    assert(pair_lt(s[0], s[k + 1]));
                    lex_lt_irrefl(owner);
                } else {
                    assert(page[i] == rest[i - 1]);
                    assert(page[j] == rest[j - 1]);
                }
            }
        }
    }
}

/// Listing with a cursor equals the cursor filter of the full listing.
pub proof fn lemma_owner_page_after(s: Seq<IndexEntryView>, owner: Seq<char>, c: Seq<char>)
    ensures
        owner_page(s, owner, Some(c)) == ids_after(owner_page(s, owner, None), c),
    decreases s.len(),
{
    if s.len() > 0 {
        lemma_owner_page_after(s.drop_first(), owner, c);
        let full = owner_page(s, owner, None);
        if s[0].owner == owner {
            assert(full.drop_first() =~= owner_page(s.drop_first(), owner, None));
        }
    }
}

/// Filtering a strictly ascending listing by its `k`th identifier keeps
/// exactly the identifiers after position `k`.
pub proof fn lemma_ids_after_sorted(ids: Seq<Seq<char>>, k: int)
    requires
        sorted_ids(ids),
        0 <= k < ids.len(),
    ensures
        ids_after(ids, ids[k]) == ids.skip(k + 1),
    decreases ids.len(),
{
    let c = ids[k];
    if k == 0 {
        assert(!lex_lt(c, ids[0])) by {
            lex_lt_irrefl(c);
        }
        assert forall|i: int| 0 <= i < ids.drop_first().len() implies lex_lt(
            c,
            #[trigger] ids.drop_first()[i],
        ) by {
            assert(ids.drop_first()[i] == ids[i + 1]);
        }
        lemma_ids_after_all(ids.drop_first(), c);
        assert(ids.drop_first() =~= ids.skip(1));
    } else {
        assert(!lex_lt(c, ids[0])) by {
            lex_lt_asymmetry(ids[0], c);
        }
        lemma_ids_after_sorted(ids.drop_first(), k - 1);
        assert(ids.drop_first()[k - 1] == ids[k]);
        assert(ids.drop_first().skip(k) =~= ids.skip(k + 1));
    }
}

/// Filtering keeps everything when the cursor precedes every identifier.
proof fn lemma_ids_after_all(ids: Seq<Seq<char>>, c: Seq<char>)
    requires
        forall|i: int| 0 <= i < ids.len() ==> lex_lt(c, #[trigger] ids[i]),
    ensures
        ids_after(ids, c) == ids,
    decreases ids.len(),
{
    if ids.len() > 0 {
        assert forall|i: int| 0 <= i < ids.drop_first().len() implies lex_lt(
            c,
            #[trigger] ids.drop_first()[i],
        ) by {
            assert(ids.drop_first()[i] == ids[i + 1]);
        }
        lemma_ids_after_all(ids.drop_first(), c);
        assert(seq![ids[0]] + ids.drop_first() =~= ids);
    }
}

} // verus!
