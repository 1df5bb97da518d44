//! The collection's operations: creation, the role- and owner-gated
//! mutations, the selection hook and migration.
//!
//! Each mutation's full behaviour — which caller succeeds, which error
//! comes on which input, and exactly how the state and the reported
//! effects change — is captured by an outcome predicate over the state's
//! mathematical value.

use vstd::prelude::*;

use crate::digits::{dec_chars, u64_to_dec_string};
use crate::error::ContractError;
use crate::execute::{assert_minter, initialize_creator, initialize_minter, is_role_owner};
use crate::model::{
    find_token, has_id, insert_pair, insert_token, lemma_find_has, lemma_insert_token_len,
    lemma_remove_token_len, remove_pair, remove_token, update_ext, IndexEntryView, NftInfoView,
    TokenEntryView,
};
use crate::msg::{ConsumptionUnitExtensionUpdate, ExecuteMsg, InstantiateMsg, MigrateMsg};
use crate::response::{AttributeView, Event, EventView, Response, ResponseView};
use crate::state::{
    CollectionInfo, CollectionInfoView, ConfigView, Cw721Config, NftInfo, OwnershipView,
};
use crate::types::{
    ConsumptionUnitDataView, ConsumptionUnitState, CUConfig, CUConfigView, Env, MessageInfo,
    Timestamp,
};

verus! {

/// The identity a role falls back to: the requested one, else the sender.
pub open spec fn resolved_role(requested: Option<String>, sender: Seq<char>) -> Seq<char> {
    match requested {
        Some(m) => m@,
        None => sender,
    }
}

/// The payload a fresh record is stored with: the requested payload, with
/// the lifecycle state reset to `Reflected` and both timestamps set to the
/// invocation time. Timestamps are never client-supplied.
pub open spec fn minted_extension(x: ConsumptionUnitDataView, now: Timestamp) -> ConsumptionUnitDataView {
    ConsumptionUnitDataView {
        state: ConsumptionUnitState::Reflected,
        created_at: now,
        updated_at: now,
        ..x
    }
}

/// The payload after an accepted tier update: the new tier, a fresh update
/// time, and the state moved forward to `Nominated`.
pub open spec fn updated_extension(x: ConsumptionUnitDataView, tier: u16, now: Timestamp) -> ConsumptionUnitDataView {
    ConsumptionUnitDataView {
        commitment_tier: tier,
        updated_at: now,
        state: ConsumptionUnitState::Nominated,
        ..x
    }
}

/// The payload after the selection event: the state locked to `Selected`
/// and a fresh update time.
pub open spec fn selected_extension(x: ConsumptionUnitDataView, now: Timestamp) -> ConsumptionUnitDataView {
    ConsumptionUnitDataView { state: ConsumptionUnitState::Selected, updated_at: now, ..x }
}

/// The collection settings and roles are untouched.
pub open spec fn same_settings(pre: ConfigView, post: ConfigView) -> bool {
    &&& post.collection_info == pre.collection_info
    &&& post.collection_config == pre.collection_config
    &&& post.minter == pre.minter
    &&& post.creator == pre.creator
}

/// Effects reported by a successful creation call.
pub open spec fn instantiate_response(minter: Seq<char>, creator: Seq<char>) -> ResponseView {
    ResponseView {
        attributes: seq![
            (AttributeView { key: "action"@, value: "consumption-unit::instantiate"@ }),
        ],
        events: seq![
            (EventView {
                ty: "consumption-unit::instantiate"@,
                attributes: seq![
                    (AttributeView { key: "minter"@, value: minter }),
                    (AttributeView { key: "creator"@, value: creator }),
                ],
            }),
        ],
    }
}

/// Effects reported by a successful mint.
pub open spec fn mint_response(token_id: Seq<char>, owner: Seq<char>) -> ResponseView {
    ResponseView {
        attributes: seq![(AttributeView { key: "action"@, value: "consumption-unit::mint"@ })],
        events: seq![
            (EventView {
                ty: "consumption-unit::mint"@,
                attributes: seq![
                    (AttributeView { key: "token_id"@, value: token_id }),
                    (AttributeView { key: "owner"@, value: owner }),
                ],
            }),
        ],
    }
}

/// Effects reported by a successful burn.
pub open spec fn burn_response(sender: Seq<char>, token_id: Seq<char>) -> ResponseView {
    ResponseView {
        attributes: seq![(AttributeView { key: "action"@, value: "consumption-unit::burn"@ })],
        events: seq![
            (EventView {
                ty: "consumption-unit::burn"@,
                attributes: seq![
                    (AttributeView { key: "sender"@, value: sender }),
                    (AttributeView { key: "token_id"@, value: token_id }),
                ],
            }),
        ],
    }
}

/// Effects reported by a successful tier update.
pub open spec fn update_response(token_id: Seq<char>, tier: u16) -> ResponseView {
    ResponseView {
        attributes: seq![
            (AttributeView { key: "action"@, value: "consumption-unit::update_nft_info"@ }),
        ],
        events: seq![
            (EventView {
                ty: "consumption-unit::update_nft_info"@,
                attributes: seq![
                    (AttributeView { key: "token_id"@, value: token_id }),
                    (AttributeView {
                        key: "new_commitment_pool_id"@,
                        value: dec_chars(tier as nat),
                    }),
                ],
            }),
        ],
    }
}

/// Effects reported by a successful selection.
pub open spec fn select_response(token_id: Seq<char>) -> ResponseView {
    ResponseView {
        attributes: seq![(AttributeView { key: "action"@, value: "consumption-unit::select"@ })],
        events: seq![
            (EventView {
                ty: "consumption-unit::select"@,
                attributes: seq![(AttributeView { key: "token_id"@, value: token_id })],
            }),
        ],
    }
}

/// Full behaviour of a mint call. Only the minter may mint; a taken
/// identifier is rejected with `AlreadyExists`; otherwise the record is
/// created with the invocation timestamps, the index entry is filed, the
/// counter rises by one and the mint effects are reported. A failed call
/// leaves no trace.
pub open spec fn mint_outcome(
    pre: ConfigView,
    post: ConfigView,
    r: Result<Response, ContractError>,
    sender: Seq<char>,
    token_id: Seq<char>,
    owner: Seq<char>,
    ext: ConsumptionUnitDataView,
    now: Timestamp,
) -> bool {
    if !is_role_owner(pre.minter, sender) {
        post == pre && (r matches Err(e) && e == ContractError::NotMinter)
    } else if has_id(pre.nft_info.tokens, token_id) {
        post == pre && (r matches Err(e) && e == ContractError::AlreadyExists)
    } else {
        &&& post.nft_info.tokens == insert_token(
            pre.nft_info.tokens,
            (TokenEntryView {
                token_id: token_id,
                info: (NftInfoView { owner: owner, extension: minted_extension(ext, now) }),
            }),
        )
        &&& post.nft_info.index == insert_pair(
            pre.nft_info.index,
            (IndexEntryView { owner: owner, token_id: token_id }),
        )
        &&& post.token_count == pre.token_count + 1
        &&& same_settings(pre, post)
        &&& r matches Ok(resp) && resp@ == mint_response(token_id, owner)
    }
}

/// Full behaviour of a burn call. A missing identifier is rejected with
/// `NotFound`; a caller other than the owner with `NotOwner`; otherwise
/// the record and its index entry are deleted, the counter falls by one
/// and the burn effects are reported. A failed call leaves no trace.
pub open spec fn burn_outcome(
    pre: ConfigView,
    post: ConfigView,
    r: Result<Response, ContractError>,
    sender: Seq<char>,
    token_id: Seq<char>,
) -> bool {
    match find_token(pre.nft_info.tokens, token_id) {
        None => post == pre && (r matches Err(e) && e == ContractError::NotFound),
        Some(i) => {
            if i.owner != sender {
                post == pre && (r matches Err(e) && e == ContractError::NotOwner)
            } else {
                &&& post.nft_info.tokens == remove_token(pre.nft_info.tokens, token_id)
                &&& post.nft_info.index == remove_pair(pre.nft_info.index, i.owner, token_id)
                &&& post.token_count == pre.token_count - 1
                &&& same_settings(pre, post)
                &&& r matches Ok(resp) && resp@ == burn_response(sender, token_id)
            }
        },
    }
}

/// Full behaviour of a tier update. A missing identifier is rejected with
/// `NotFound`; a caller other than the owner with `NotOwner`, whatever
/// the token's state; a token already `Selected` with `WrongState`;
/// otherwise the payload is replaced as [`updated_extension`] says — the
/// owner, the index and the counter are untouched — and the update effects
/// are reported. A failed call leaves no trace.
pub open spec fn update_outcome(
    pre: ConfigView,
    post: ConfigView,
    r: Result<Response, ContractError>,
    sender: Seq<char>,
    token_id: Seq<char>,
    tier: u16,
    now: Timestamp,
) -> bool {
    match find_token(pre.nft_info.tokens, token_id) {
        None => post == pre && (r matches Err(e) && e == ContractError::NotFound),
        Some(i) => {
            if i.owner != sender {
                post == pre && (r matches Err(e) && e == ContractError::NotOwner)
            } else if i.extension.state == ConsumptionUnitState::Selected {
                post == pre && (r matches Err(e) && e == ContractError::WrongState)
            } else {
                &&& post.nft_info.tokens == update_ext(
                    pre.nft_info.tokens,
                    token_id,
                    updated_extension(i.extension, tier, now),
                )
                &&& post.nft_info.index == pre.nft_info.index
                &&& post.token_count == pre.token_count
                &&& same_settings(pre, post)
                &&& r matches Ok(resp) && resp@ == update_response(token_id, tier)
            }
        },
    }
}

/// Full behaviour of the selection hook. Only the minter may select; a
/// missing identifier is rejected with `NotFound`; a token already
/// `Selected` with `WrongState`; otherwise the state is locked to
/// `Selected` and the selection effects are reported. A failed call
/// leaves no trace.
pub open spec fn select_outcome(
    pre: ConfigView,
    post: ConfigView,
    r: Result<Response, ContractError>,
    sender: Seq<char>,
    token_id: Seq<char>,
    now: Timestamp,
) -> bool {
    if !is_role_owner(pre.minter, sender) {
        post == pre && (r matches Err(e) && e == ContractError::NotMinter)
    } else {
        match find_token(pre.nft_info.tokens, token_id) {
            None => post == pre && (r matches Err(e) && e == ContractError::NotFound),
            Some(i) => {
                if i.extension.state == ConsumptionUnitState::Selected {
                    post == pre && (r matches Err(e) && e == ContractError::WrongState)
                } else {
                    &&& post.nft_info.tokens == update_ext(
                        pre.nft_info.tokens,
                        token_id,
                        selected_extension(i.extension, now),
                    )
                    &&& post.nft_info.index == pre.nft_info.index
                    &&& post.token_count == pre.token_count
                    &&& same_settings(pre, post)
                    &&& r matches Ok(resp) && resp@ == select_response(token_id)
                }
            },
        }
    }
}

/// Creates a collection: writes the metadata and configuration singletons
/// and initializes both roles, falling back to the sender for a role whose
/// identity is not supplied. The returned state is empty of tokens.
pub fn instantiate(env: &Env, info: &MessageInfo, msg: InstantiateMsg) -> (r: (
    Cw721Config,
    Response,
))
    ensures
        r.0@.wf(),
        r.0@.collection_info == Some(
            (CollectionInfoView { name: msg.name@, symbol: msg.symbol@, updated_at: env.block.time }),
        ),
        r.0@.collection_config == Some(
            (CUConfigView {
                settlement_token: msg.collection_info_extension.settlement_token@,
                native_token: msg.collection_info_extension.native_token@,
                price_oracle: msg.collection_info_extension.price_oracle@,
            }),
        ),
        r.0@.token_count == 0,
        r.0@.nft_info.tokens.len() == 0,
        r.0@.nft_info.index.len() == 0,
        r.0@.minter == (OwnershipView {
            owner: Some(resolved_role(msg.minter, info.sender@)),
            pending_owner: None,
        }),
        r.0@.creator == (OwnershipView {
            owner: Some(resolved_role(msg.creator, info.sender@)),
            pending_owner: None,
        }),
        r.1@ == instantiate_response(
            resolved_role(msg.minter, info.sender@),
            resolved_role(msg.creator, info.sender@),
        ),
{
    let crate::msg::Cw721InstantiateMsg { name, symbol, collection_info_extension, minter, creator } =
        msg;
    let mut config = Cw721Config::default();
    config.collection_config = Some(
        CUConfig {
            settlement_token: collection_info_extension.settlement_token,
            native_token: collection_info_extension.native_token,
            price_oracle: collection_info_extension.price_oracle,
        },
    );
    config.collection_info = Some(
        CollectionInfo { name, symbol, updated_at: env.block.time },
    );
    let minter_id: String = match minter {
        Some(m) => m,
        None => info.sender.clone(),
    };
    let creator_id: String = match creator {
        Some(c) => c,
        None => info.sender.clone(),
    };
    let _ = initialize_minter(&mut config.minter, &minter_id);
    let _ = initialize_creator(&mut config.creator, &creator_id);
    let resp = Response::new().add_attribute("action", "consumption-unit::instantiate").add_event(
        Event::new("consumption-unit::instantiate").add_attribute(
            "minter",
            minter_id.as_str(),
        ).add_attribute("creator", creator_id.as_str()),
    );
    proof {
        assert(resp@ =~~= instantiate_response(minter_id@, creator_id@));
    }
    (config, resp)
}

/// Routes a mutation call to its operation.
pub fn execute(config: &mut Cw721Config, env: &Env, info: &MessageInfo, msg: ExecuteMsg) -> (r:
    Result<Response, ContractError>)
    requires
        old(config)@.wf(),
        (msg matches ExecuteMsg::Mint { .. }) ==> old(config).token_count < u64::MAX,
    ensures
        final(config)@.wf(),
        match msg {
            ExecuteMsg::Mint { token_id, owner, token_uri, extension } => mint_outcome(
                old(config)@,
                final(config)@,
                r,
                info.sender@,
                token_id@,
                owner@,
                extension@,
                env.block.time,
            ),
            ExecuteMsg::Burn { token_id } => burn_outcome(
                old(config)@,
                final(config)@,
                r,
                info.sender@,
                token_id@,
            ),
            ExecuteMsg::UpdateNftInfo { token_id, extension } => match extension {
                ConsumptionUnitExtensionUpdate::UpdatePool { new_commitment_tier_id } => update_outcome(
                    old(config)@,
                    final(config)@,
                    r,
                    info.sender@,
                    token_id@,
                    new_commitment_tier_id,
                    env.block.time,
                ),
            },
        },
{
    match msg {
        ExecuteMsg::Mint { token_id, owner, token_uri: _, extension } => execute_mint(
            config,
            env,
            info,
            token_id,
            owner,
            extension,
        ),
        ExecuteMsg::Burn { token_id } => execute_burn(config, env, info, token_id),
        ExecuteMsg::UpdateNftInfo { token_id, extension } => execute_update_nft_info(
            config,
            env,
            info,
            token_id,
            extension,
        ),
    }
}

/// Creates a token record; see [`mint_outcome`].
fn execute_mint(
    config: &mut Cw721Config,
    env: &Env,
    info: &MessageInfo,
    token_id: String,
    owner: String,
    extension: crate::types::ConsumptionUnitData,
) -> (r: Result<Response, ContractError>)
    requires
        old(config)@.wf(),
        old(config).token_count < u64::MAX,
    ensures
        final(config)@.wf(),
        mint_outcome(
            old(config)@,
            final(config)@,
            r,
            info.sender@,
            token_id@,
            owner@,
            extension@,
            env.block.time,
        ),
{
    match assert_minter(&config.minter, &info.sender) {
        Err(e) => {
            return Err(e);
        },
        Ok(()) => {},
    }
    let mut ext = extension;
    ext.state = ConsumptionUnitState::Reflected;
    ext.created_at = env.block.time;
    ext.updated_at = env.block.time;
    let id_attr = token_id.clone();
    let owner_attr = owner.clone();
    let ghost entry = TokenEntryView {
        token_id: token_id@,
        info: NftInfoView { owner: owner@, extension: ext@ },
    };
    match config.nft_info.insert(token_id, NftInfo { owner, extension: ext }) {
        Err(e) => {
            return Err(e);
        },
        Ok(()) => {},
    }
    proof {
        lemma_insert_token_len(old(config)@.nft_info.tokens, entry);
    }
    let _ = config.increment_tokens();
    let resp = Response::new().add_attribute("action", "consumption-unit::mint").add_event(
        Event::new("consumption-unit::mint").add_attribute(
            "token_id",
            id_attr.as_str(),
        ).add_attribute("owner", owner_attr.as_str()),
    );
    proof {
        assert(resp@ =~~= mint_response(id_attr@, owner_attr@));
    }
    Ok(resp)
}

/// Deletes a token record; see [`burn_outcome`].
fn execute_burn(config: &mut Cw721Config, _env: &Env, info: &MessageInfo, token_id: String) -> (r:
    Result<Response, ContractError>)
    requires
        old(config)@.wf(),
    ensures
        final(config)@.wf(),
        burn_outcome(old(config)@, final(config)@, r, info.sender@, token_id@),
{
    let owner_ok = match config.nft_info.load(&token_id) {
        Err(e) => {
            return Err(e);
        },
        Ok(nft) => nft.owner == info.sender,
    };
    if !owner_ok {
        return Err(ContractError::NotOwner);
    }
    proof {
        lemma_find_has(old(config)@.nft_info.tokens, token_id@);
        lemma_remove_token_len(old(config)@.nft_info.tokens, token_id@);
    }
    match config.nft_info.remove(&token_id) {
        Err(e) => {
            return Err(e);
        },
        Ok(()) => {},
    }
    let _ = config.decrement_tokens();
    let resp = Response::new().add_attribute("action", "consumption-unit::burn").add_event(
        Event::new("consumption-unit::burn").add_attribute(
            "sender",
            info.sender.as_str(),
        ).add_attribute("token_id", token_id.as_str()),
    );
    proof {
        assert(resp@ =~~= burn_response(info.sender@, token_id@));
    }
    Ok(resp)
}

/// Updates a token's payload; see [`update_outcome`].
fn execute_update_nft_info(
    config: &mut Cw721Config,
    env: &Env,
    info: &MessageInfo,
    token_id: String,
    update: ConsumptionUnitExtensionUpdate,
) -> (r: Result<Response, ContractError>)
    requires
        old(config)@.wf(),
    ensures
        final(config)@.wf(),
        match update {
            ConsumptionUnitExtensionUpdate::UpdatePool { new_commitment_tier_id } => update_outcome(
                old(config)@,
                final(config)@,
                r,
                info.sender@,
                token_id@,
                new_commitment_tier_id,
                env.block.time,
            ),
        },
{
    match update {
        ConsumptionUnitExtensionUpdate::UpdatePool { new_commitment_tier_id } => {
            let new_ext = match config.nft_info.load(&token_id) {
                Err(e) => {
                    return Err(e);
                },
                Ok(nft) => {
                    if !(nft.owner == info.sender) {
                        return Err(ContractError::NotOwner);
                    }
                    if nft.extension.state == ConsumptionUnitState::Selected {
                        return Err(ContractError::WrongState);
                    }
                    let mut d = nft.extension.clone().update_tier(new_commitment_tier_id, env);
                    d.state = ConsumptionUnitState::Nominated;
                    d
                },
            };
            match config.nft_info.update_extension(&token_id, new_ext) {
                Err(e) => {
                    return Err(e);
                },
                Ok(()) => {},
            }
            let tier_str = u64_to_dec_string(new_commitment_tier_id as u64);
            let resp = Response::new().add_attribute(
                "action",
                "consumption-unit::update_nft_info",
            ).add_event(
                Event::new("consumption-unit::update_nft_info").add_attribute(
                    "token_id",
                    token_id.as_str(),
                ).add_attribute("new_commitment_pool_id", tier_str.as_str()),
            );
            proof {
                assert(resp@ =~~= update_response(token_id@, new_commitment_tier_id));
            }
            Ok(resp)
        },
    }
}

/// Locks a token into the terminal `Selected` state; see
/// [`select_outcome`]. The selection event itself is decided outside this
/// core, so the hook is gated on the minter, the role the hosting platform
/// drives the collection through.
pub fn execute_select(
    config: &mut Cw721Config,
    env: &Env,
    info: &MessageInfo,
    token_id: String,
) -> (r: Result<Response, ContractError>)
    requires
        old(config)@.wf(),
    ensures
        final(config)@.wf(),
        select_outcome(old(config)@, final(config)@, r, info.sender@, token_id@, env.block.time),
{
    match assert_minter(&config.minter, &info.sender) {
        Err(e) => {
            return Err(e);
        },
        Ok(()) => {},
    }
    let new_ext = match config.nft_info.load(&token_id) {
        Err(e) => {
            return Err(e);
        },
        Ok(nft) => {
            if nft.extension.state == ConsumptionUnitState::Selected {
                return Err(ContractError::WrongState);
            }
            let mut d = nft.extension.clone();
            d.state = ConsumptionUnitState::Selected;
            d.updated_at = env.block.time;
            d
        },
    };
    match config.nft_info.update_extension(&token_id, new_ext) {
        Err(e) => {
            return Err(e);
        },
        Ok(()) => {},
    }
    let resp = Response::new().add_attribute("action", "consumption-unit::select").add_event(
        Event::new("consumption-unit::select").add_attribute("token_id", token_id.as_str()),
    );
    proof {
        assert(resp@ =~~= select_response(token_id@));
    }
    Ok(resp)
}

/// A state-version bump with no effect on any record.
pub fn migrate(msg: MigrateMsg) -> (r: Response)
    ensures
        r@.attributes.len() == 0,
        r@.events.len() == 0,
{
    match msg {
        MigrateMsg::Migrate {  } => Response::new(),
    }
}

} // verus!
