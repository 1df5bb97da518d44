//! Laws relating the operations to each other, stated over the state's
//! mathematical value and proved from the same definitions the operation
//! contracts use.

use vstd::prelude::*;

use crate::contract::{mint_outcome, burn_outcome, minted_extension};
use crate::error::ContractError;
use crate::execute::is_role_owner;
use crate::model::{
    find_token, has_id, lemma_find_insert_token, lemma_find_remove_token, lemma_ids_after_sorted,
    lemma_owner_page_after, lemma_owner_page_entries, lemma_owner_page_sorted,
    lemma_pair_in_remove, owner_page, sorted_index, IndexEntryView, NftInfoView, TokenEntryView,
};
use crate::response::Response;
use crate::state::ConfigView;
use crate::types::{ConsumptionUnitDataView, Timestamp};

verus! {

/// Minting a fresh identifier and then loading it returns exactly the
/// record that was inserted — the requested owner and payload, stamped
/// with the invocation time — and the token count rises by exactly one.
pub proof fn lemma_mint_then_load(
    pre: ConfigView,
    post: ConfigView,
    r: Result<Response, ContractError>,
    sender: Seq<char>,
    token_id: Seq<char>,
    owner: Seq<char>,
    ext: ConsumptionUnitDataView,
    now: Timestamp,
)
    requires
        pre.wf(),
        mint_outcome(pre, post, r, sender, token_id, owner, ext, now),
        is_role_owner(pre.minter, sender),
        !has_id(pre.nft_info.tokens, token_id),
    ensures
        find_token(post.nft_info.tokens, token_id) == Some(
            (NftInfoView { owner: owner, extension: minted_extension(ext, now) }),
        ),
        post.token_count == pre.token_count + 1,
{
    let e = TokenEntryView {
        token_id: token_id,
        info: NftInfoView { owner: owner, extension: minted_extension(ext, now) },
    };
    lemma_find_insert_token(pre.nft_info.tokens, e, token_id);
}

/// A successful burn removes the identifier from the primary store and
/// from its owner's index listing, and lowers the token count by exactly
/// one.
pub proof fn lemma_burn_removes(
    pre: ConfigView,
    post: ConfigView,
    r: Result<Response, ContractError>,
    sender: Seq<char>,
    token_id: Seq<char>,
)
    requires
        pre.wf(),
        burn_outcome(pre, post, r, sender, token_id),
        find_token(pre.nft_info.tokens, token_id) matches Some(i) && i.owner == sender,
    ensures
        find_token(post.nft_info.tokens, token_id) is None,
        !owner_page(post.nft_info.index, sender, None).contains(token_id),
        post.token_count == pre.token_count - 1,
{
    lemma_find_remove_token(pre.nft_info.tokens, token_id, token_id);
    let idx2 = post.nft_info.index;
    lemma_owner_page_entries(idx2, sender, None);
    if owner_page(idx2, sender, None).contains(token_id) {
        let j = choose|j: int|
            0 <= j < owner_page(idx2, sender, None).len() && owner_page(idx2, sender, None)[j]
                == token_id;
        assert(crate::model::pair_in(idx2, sender, token_id));
        lemma_pair_in_remove(pre.nft_info.index, sender, token_id, sender, token_id);
    }
}

/// Resuming an owner listing with the cursor set to the last identifier of
/// the previous page yields exactly the remaining identifiers: no
/// duplicates, no gaps, for any partition of the listing into pages.
pub proof fn lemma_pagination(index: Seq<IndexEntryView>, owner: Seq<char>, k: int)
    requires
        sorted_index(index),
        0 < k <= owner_page(index, owner, None).len(),
    ensures
        owner_page(index, owner, Some(owner_page(index, owner, None)[k - 1])) == owner_page(
            index,
            owner,
            None,
        ).skip(k),
{
    let full = owner_page(index, owner, None);
    lemma_owner_page_after(index, owner, full[k - 1]);
    lemma_owner_page_sorted(index, owner, None);
    lemma_ids_after_sorted(full, k - 1);
}

} // verus!
