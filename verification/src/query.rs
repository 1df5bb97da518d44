//! The read operations: pure projections over the collection state, with
//! cursor-based pagination for the two listing queries.

use vstd::prelude::*;

use crate::error::ContractError;
use crate::lex::{str_cmp, CMP_GT};
use crate::model::{
    all_page, find_token, lemma_all_page_concat, lemma_owner_page_concat, owner_page,
    IndexEntryView, TokenEntryView,
};
use crate::msg::{
    ContractInfoResponse, NftInfoResponse, NumTokensResponse, OwnerOfResponse, TokensResponse,
};
use crate::state::{entries_view, index_view, Cw721Config, Ownership};
use crate::types::{ConsumptionUnitData, CUConfig, Env};

verus! {

/// Page size used when a listing query names none.
pub const DEFAULT_LIMIT: u32 = 10;

/// Largest page size a listing query can ask for; anything above is
/// clamped, never rejected.
pub const MAX_LIMIT: u32 = 1000;

/// The read calls.
#[derive(Debug)]
pub enum QueryMsg {
    /// The collection configuration.
    GetConfig {},
    /// The owner of one token.
    OwnerOf { token_id: String },
    /// The number of live tokens.
    NumTokens {},
    /// The minter role's registry.
    GetMinterOwnership {},
    /// The creator role's registry.
    GetCreatorOwnership {},
    /// The payload of one token.
    NftInfo { token_id: String },
    /// The given owner's tokens, paginated.
    Tokens { owner: String, start_after: Option<String>, limit: Option<u32> },
    /// All tokens, paginated.
    AllTokens { start_after: Option<String>, limit: Option<u32> },
}

/// One answer per read call.
#[derive(Debug)]
pub enum QueryResponse {
    Config(CUConfig),
    OwnerOf(OwnerOfResponse),
    NumTokens(NumTokensResponse),
    MinterOwnership(Ownership),
    CreatorOwnership(Ownership),
    NftInfo(NftInfoResponse<ConsumptionUnitData>),
    Tokens(TokensResponse),
    AllTokens(TokensResponse),
}

/// Mathematical value of a pagination cursor.
pub open spec fn opt_view(o: Option<String>) -> Option<Seq<char>> {
    match o {
        Some(s) => Some(s@),
        None => None,
    }
}

/// The page size actually used: the requested one, defaulted and clamped.
pub open spec fn effective_limit(limit: Option<u32>) -> u32 {
    let l = match limit {
        Some(x) => x,
        None => DEFAULT_LIMIT,
    };
    if l > MAX_LIMIT {
        MAX_LIMIT
    } else {
        l
    }
}

/// The first `lim` identifiers of a listing, or all of them if fewer.
pub open spec fn take_limited(page: Seq<Seq<char>>, lim: int) -> Seq<Seq<char>> {
    if lim <= page.len() {
        page.take(lim)
    } else {
        page
    }
}

/// The collection configuration, or `NotFound` before creation.
pub fn query_get_config(config: &Cw721Config) -> (r: Result<CUConfig, ContractError>)
    ensures
        match config@.collection_config {
            Some(cc) => r matches Ok(c) && c@ == cc,
            None => r matches Err(e) && e == ContractError::NotFound,
        },
{
    match &config.collection_config {
        Some(cc) => Ok(cc.clone()),
        None => Err(ContractError::NotFound),
    }
}

/// The minter role's registry.
pub fn query_minter_ownership(config: &Cw721Config) -> (r: Ownership)
    ensures
        r@ == config@.minter,
{
    config.minter.clone()
}

/// The creator role's registry.
pub fn query_creator_ownership(config: &Cw721Config) -> (r: Ownership)
    ensures
        r@ == config@.creator,
{
    config.creator.clone()
}

/// The number of live tokens.
pub fn query_num_tokens(config: &Cw721Config) -> (r: NumTokensResponse)
    ensures
        r.count == config@.token_count,
{
    NumTokensResponse { count: config.token_count() }
}

/// The payload of one token, or `NotFound`.
pub fn query_nft_info(config: &Cw721Config, token_id: String) -> (r: Result<
    NftInfoResponse<ConsumptionUnitData>,
    ContractError,
>)
    requires
        config@.wf(),
    ensures
        match find_token(config@.nft_info.tokens, token_id@) {
            Some(i) => r matches Ok(x) && x.extension@ == i.extension,
            None => r matches Err(e) && e == ContractError::NotFound,
        },
{
    match config.nft_info.load(&token_id) {
        Ok(nft) => Ok(NftInfoResponse { extension: nft.extension.clone() }),
        Err(e) => Err(e),
    }
}

/// The owner of one token, or `NotFound`.
pub fn query_owner_of(config: &Cw721Config, _env: &Env, token_id: String) -> (r: Result<
    OwnerOfResponse,
    ContractError,
>)
    requires
        config@.wf(),
    ensures
        match find_token(config@.nft_info.tokens, token_id@) {
            Some(i) => r matches Ok(x) && x.owner@ == i.owner,
            None => r matches Err(e) && e == ContractError::NotFound,
        },
{
    match config.nft_info.load(&token_id) {
        Ok(nft) => Ok(OwnerOfResponse { owner: nft.owner.clone() }),
        Err(e) => Err(e),
    }
}

/// Collection metadata and configuration together, or `NotFound` before
/// creation.
pub fn query_contract_info(config: &Cw721Config) -> (r: Result<
    ContractInfoResponse<CUConfig>,
    ContractError,
>)
    ensures
        match (config@.collection_info, config@.collection_config) {
            (Some(ci), Some(cc)) => r matches Ok(x) && x.collection_info@ == ci
                && x.collection_config@ == cc,
            _ => r matches Err(e) && e == ContractError::NotFound,
        },
{
    match (&config.collection_info, &config.collection_config) {
        (Some(ci), Some(cc)) => Ok(
            ContractInfoResponse {
                collection_info: ci.clone(),
                collection_config: cc.clone(),
            },
        ),
        _ => Err(ContractError::NotFound),
    }
}

/// The page size actually used for a request.
fn clamp_limit(limit: Option<u32>) -> (l: u32)
    ensures
        l == effective_limit(limit),
{
    let l = match limit {
        Some(x) => x,
        None => DEFAULT_LIMIT,
    };
    if l > MAX_LIMIT {
        MAX_LIMIT
    } else {
        l
    }
}

/// The given owner's token identifiers in ascending order, beginning
/// strictly after the cursor, at most the clamped limit of them.
#[verifier::loop_isolation(false)]
pub fn query_tokens(
    config: &Cw721Config,
    owner: String,
    start_after: Option<String>,
    limit: Option<u32>,
) -> (r: TokensResponse)
    ensures
        r.tokens.deep_view() == take_limited(
            owner_page(config@.nft_info.index, owner@, opt_view(start_after)),
            effective_limit(limit) as int,
        ),
{
    let lim = clamp_limit(limit) as usize;
    let ghost iv = index_view(config.nft_info.idx.owner@);
    let ghost after = opt_view(start_after);
    let index = &config.nft_info.idx.owner;
    let mut out: Vec<String> = Vec::new();
    let mut i: usize = 0;
    while i < index.len()
        invariant
            i <= index.len(),
            out.deep_view() == take_limited(
                owner_page(iv.take(i as int), owner@, after),
                lim as int,
            ),
            out.len() <= lim,
        decreases index.len() - i,
    {
        let ghost page_i = owner_page(iv.take(i as int), owner@, after);
        let matches_owner = index[i].owner == owner;
        let after_ok = match &start_after {
            Some(c) => str_cmp(index[i].token_id.as_str(), c.as_str()) == CMP_GT,
            None => true,
        };
        if matches_owner && after_ok && out.len() < lim {
            let ghost prev = out.deep_view();
            out.push(index[i].token_id.clone());
            proof {
                assert(out.deep_view() =~= prev.push(iv[i as int].token_id));
            }
        }
        proof {
            lemma_page_step(iv, owner@, after, i as int);
            let page_n = owner_page(iv.take(i as int + 1), owner@, after);
            if iv[i as int].owner == owner@ && crate::model::cursor_ok(
                after,
                iv[i as int].token_id,
            ) {
                assert(page_n =~= page_i.push(iv[i as int].token_id));
                if out.len() <= lim && page_i.len() < lim {
                    assert(take_limited(page_i, lim as int) =~= page_i);
                    assert(take_limited(page_n, lim as int) =~= page_i.push(
                        iv[i as int].token_id,
                    ));
                } else {
                    assert(page_i.len() >= lim);
                    assert(take_limited(page_n, lim as int) =~= page_n.take(lim as int));
                    assert(page_n.take(lim as int) =~= page_i.take(lim as int));
                }
            } else {
                assert(page_n =~= page_i);
            }
        }
        i = i + 1;
    }
    proof {
        assert(iv.take(index@.len() as int) =~= iv);
    }
    TokensResponse { tokens: out }
}

/// All token identifiers in ascending order, beginning strictly after the
/// cursor, at most the clamped limit of them.
#[verifier::loop_isolation(false)]
pub fn query_all_tokens(config: &Cw721Config, start_after: Option<String>, limit: Option<u32>) -> (r:
    TokensResponse)
    ensures
        r.tokens.deep_view() == take_limited(
            all_page(config@.nft_info.tokens, opt_view(start_after)),
            effective_limit(limit) as int,
        ),
{
    let lim = clamp_limit(limit) as usize;
    let ghost tv = entries_view(config.nft_info.entries@);
    let ghost after = opt_view(start_after);
    let entries = &config.nft_info.entries;
    let mut out: Vec<String> = Vec::new();
    let mut i: usize = 0;
    while i < entries.len()
        invariant
            i <= entries.len(),
            out.deep_view() == take_limited(all_page(tv.take(i as int), after), lim as int),
            out.len() <= lim,
        decreases entries.len() - i,
    {
        let ghost page_i = all_page(tv.take(i as int), after);
        let after_ok = match &start_after {
            Some(c) => str_cmp(entries[i].token_id.as_str(), c.as_str()) == CMP_GT,
            None => true,
        };
        if after_ok && out.len() < lim {
            let ghost prev = out.deep_view();
            out.push(entries[i].token_id.clone());
            proof {
                assert(out.deep_view() =~= prev.push(tv[i as int].token_id));
            }
        }
        proof {
            lemma_all_page_step(tv, after, i as int);
            let page_n = all_page(tv.take(i as int + 1), after);
            if crate::model::cursor_ok(after, tv[i as int].token_id) {
                assert(page_n =~= page_i.push(tv[i as int].token_id));
                if out.len() <= lim && page_i.len() < lim {
                    assert(take_limited(page_i, lim as int) =~= page_i);
                    assert(take_limited(page_n, lim as int) =~= page_i.push(
                        tv[i as int].token_id,
                    ));
                } else {
                    assert(page_i.len() >= lim);
                    assert(take_limited(page_n, lim as int) =~= page_n.take(lim as int));
                    assert(page_n.take(lim as int) =~= page_i.take(lim as int));
                }
            } else {
                assert(page_n =~= page_i);
            }
        }
        i = i + 1;
    }
    proof {
        assert(tv.take(entries@.len() as int) =~= tv);
    }
    TokensResponse { tokens: out }
}

/// One scan step extends an owner listing by at most the current entry.
proof fn lemma_page_step(s: Seq<IndexEntryView>, owner: Seq<char>, after: Option<Seq<char>>, i: int)
    requires
        0 <= i < s.len(),
    ensures
        owner_page(s.take(i + 1), owner, after) == if s[i].owner == owner
            && crate::model::cursor_ok(after, s[i].token_id) {
            owner_page(s.take(i), owner, after).push(s[i].token_id)
        } else {
            owner_page(s.take(i), owner, after)
        },
{
    reveal_with_fuel(owner_page, 2);
    assert(s.take(i + 1) =~= s.take(i) + seq![s[i]]);
    lemma_owner_page_concat(s.take(i), seq![s[i]], owner, after);
    assert(seq![s[i]].drop_first() =~= Seq::<IndexEntryView>::empty());
    if s[i].owner == owner && crate::model::cursor_ok(after, s[i].token_id) {
        assert(owner_page(seq![s[i]], owner, after) =~= seq![s[i].token_id]);
        assert(owner_page(s.take(i), owner, after) + seq![s[i].token_id] =~= owner_page(
            s.take(i),
            owner,
            after,
        ).push(s[i].token_id));
    } else {
        assert(owner_page(seq![s[i]], owner, after) =~= Seq::<Seq<char>>::empty());
        assert(owner_page(s.take(i), owner, after) + Seq::<Seq<char>>::empty() =~= owner_page(
            s.take(i),
            owner,
            after,
        ));
    }
}

/// One scan step extends a full listing by at most the current entry.
proof fn lemma_all_page_step(s: Seq<TokenEntryView>, after: Option<Seq<char>>, i: int)
    requires
        0 <= i < s.len(),
    ensures
        all_page(s.take(i + 1), after) == if crate::model::cursor_ok(after, s[i].token_id) {
            all_page(s.take(i), after).push(s[i].token_id)
        } else {
            all_page(s.take(i), after)
        },
{
    reveal_with_fuel(all_page, 2);
    assert(s.take(i + 1) =~= s.take(i) + seq![s[i]]);
    lemma_all_page_concat(s.take(i), seq![s[i]], after);
    assert(seq![s[i]].drop_first() =~= Seq::<TokenEntryView>::empty());
    if crate::model::cursor_ok(after, s[i].token_id) {
        assert(all_page(seq![s[i]], after) =~= seq![s[i].token_id]);
        assert(all_page(s.take(i), after) + seq![s[i].token_id] =~= all_page(
            s.take(i),
            after,
        ).push(s[i].token_id));
    } else {
        assert(all_page(seq![s[i]], after) =~= Seq::<Seq<char>>::empty());
        assert(all_page(s.take(i), after) + Seq::<Seq<char>>::empty() =~= all_page(
            s.take(i),
            after,
        ));
    }
}

/// Routes a read call to its operation.
pub fn query(config: &Cw721Config, _env: &Env, msg: QueryMsg) -> (r: Result<
    QueryResponse,
    ContractError,
>)
    requires
        config@.wf(),
    ensures
        match msg {
            QueryMsg::GetConfig {  } => match config@.collection_config {
                Some(cc) => r matches Ok(q) && (q matches QueryResponse::Config(c) && c@ == cc),
                None => r matches Err(e) && e == ContractError::NotFound,
            },
            QueryMsg::OwnerOf { token_id } => match find_token(
                config@.nft_info.tokens,
                token_id@,
            ) {
                Some(i) => r matches Ok(q) && (q matches QueryResponse::OwnerOf(x) && x.owner@
                    == i.owner),
                None => r matches Err(e) && e == ContractError::NotFound,
            },
            QueryMsg::NumTokens {  } => r matches Ok(q) && (q matches QueryResponse::NumTokens(x)
                && x.count == config@.token_count),
            QueryMsg::GetMinterOwnership {  } => r matches Ok(q) && (q matches
                QueryResponse::MinterOwnership(o) && o@ == config@.minter),
            QueryMsg::GetCreatorOwnership {  } => r matches Ok(q) && (q matches
                QueryResponse::CreatorOwnership(o) && o@ == config@.creator),
            QueryMsg::NftInfo { token_id } => match find_token(
                config@.nft_info.tokens,
                token_id@,
            ) {
                Some(i) => r matches Ok(q) && (q matches QueryResponse::NftInfo(x)
                    && x.extension@ == i.extension),
                None => r matches Err(e) && e == ContractError::NotFound,
            },
            QueryMsg::Tokens { owner, start_after, limit } => r matches Ok(q) && (q matches
                QueryResponse::Tokens(t) && t.tokens.deep_view() == take_limited(
                owner_page(config@.nft_info.index, owner@, opt_view(start_after)),
                effective_limit(limit) as int,
            )),
            QueryMsg::AllTokens { start_after, limit } => r matches Ok(q) && (q matches
                QueryResponse::AllTokens(t) && t.tokens.deep_view() == take_limited(
                all_page(config@.nft_info.tokens, opt_view(start_after)),
                effective_limit(limit) as int,
            )),
        },
{
    match msg {
        QueryMsg::GetConfig {  } => {
            match query_get_config(config) {
                Ok(c) => Ok(QueryResponse::Config(c)),
                Err(e) => Err(e),
            }
        },
        QueryMsg::OwnerOf { token_id } => {
            match query_owner_of(config, _env, token_id) {
                Ok(x) => Ok(QueryResponse::OwnerOf(x)),
                Err(e) => Err(e),
            }
        },
        QueryMsg::NumTokens {  } => Ok(QueryResponse::NumTokens(query_num_tokens(config))),
        QueryMsg::GetMinterOwnership {  } => Ok(
            QueryResponse::MinterOwnership(query_minter_ownership(config)),
        ),
        QueryMsg::GetCreatorOwnership {  } => Ok(
            QueryResponse::CreatorOwnership(query_creator_ownership(config)),
        ),
        QueryMsg::NftInfo { token_id } => {
            match query_nft_info(config, token_id) {
                Ok(x) => Ok(QueryResponse::NftInfo(x)),
                Err(e) => Err(e),
            }
        },
        QueryMsg::Tokens { owner, start_after, limit } => Ok(
            QueryResponse::Tokens(query_tokens(config, owner, start_after, limit)),
        ),
        QueryMsg::AllTokens { start_after, limit } => Ok(
            QueryResponse::AllTokens(query_all_tokens(config, start_after, limit)),
        ),
    }
}

} // verus!
