//! Value types carried by token records and collection configuration.
//!
//! Identities, timestamps and amounts are held as plain values: resolving or
//! validating them (address formats, oracle lookups, the current block time)
//! is the host's business, not this crate's.

use vstd::prelude::*;

verus! {

/// A point in time, in nanoseconds since the epoch, as assigned by the host.
#[derive(Clone, Copy, Debug, PartialEq, Eq, Structural)]
pub struct Timestamp {
    pub nanos: u64,
}

/// A fixed-point decimal amount with eighteen fractional digits, held as its
/// integer count of atomic units. Recomputing it is a pricing concern that
/// lives outside this crate; the core only stores and returns it.
#[derive(Clone, Copy, Debug, PartialEq, Eq, Structural)]
pub struct Decimal {
    pub atomics: u128,
}

/// A token denomination: either a native coin name or the address of a
/// token contract.
#[derive(Debug)]
pub enum Denom {
    Native(String),
    Cw20(String),
}

/// Mathematical value of a [`Denom`].
#[verifier::ext_equal]
pub ghost enum DenomView {
    Native(Seq<char>),
    Cw20(Seq<char>),
}

impl View for Denom {
    type V = DenomView;

    open spec fn view(&self) -> DenomView {
        match self {
            Denom::Native(s) => DenomView::Native(s@),
            Denom::Cw20(s) => DenomView::Cw20(s@),
        }
    }
}

impl Clone for Denom {
    fn clone(&self) -> (r: Self)
        ensures
            r@ == self@,
    {
        match self {
            Denom::Native(s) => Denom::Native(s.clone()),
            Denom::Cw20(s) => Denom::Cw20(s.clone()),
        }
    }
}

/// Lifecycle state of a consumption-unit token.
///
/// The state only ever moves forward: `Reflected` at mint, `Nominated` once
/// a tier update is accepted, `Selected` when the external selection event
/// fires. `Selected` is terminal with respect to tier mutation.
#[derive(Clone, Copy, Debug, PartialEq, Eq, Structural)]
pub enum ConsumptionUnitState {
    /// Created on the network.
    Reflected,
    /// Participating in the selection; tier and floor price may change.
    Nominated,
    /// Selected as a winner; tier and floor price are frozen.
    Selected,
}

/// Collection-level configuration: references to external resources that
/// are opaque identifiers to this core.
#[derive(Debug)]
pub struct CUConfig {
    /// Denomination in which the consumption value is settled.
    pub settlement_token: Denom,
    /// The network's native denomination.
    pub native_token: Denom,
    /// Address of the price oracle queried for floor prices.
    pub price_oracle: String,
}

/// Mathematical value of a [`CUConfig`].
#[verifier::ext_equal]
pub ghost struct CUConfigView {
    pub settlement_token: DenomView,
    pub native_token: DenomView,
    pub price_oracle: Seq<char>,
}

impl View for CUConfig {
    type V = CUConfigView;

    open spec fn view(&self) -> CUConfigView {
        CUConfigView {
            settlement_token: self.settlement_token@,
            native_token: self.native_token@,
            price_oracle: self.price_oracle@,
        }
    }
}

impl Clone for CUConfig {
    fn clone(&self) -> (r: Self)
        ensures
            r@ == self@,
    {
        CUConfig {
            settlement_token: self.settlement_token.clone(),
            native_token: self.native_token.clone(),
            price_oracle: self.price_oracle.clone(),
        }
    }
}

/// The domain payload carried by every token record.
#[derive(Debug)]
pub struct ConsumptionUnitData {
    /// The value of the consumption unit in settlement tokens.
    pub consumption_value: u128,
    /// Sum of nominal quantities from the underlying consumption records.
    pub nominal_quantity: u128,
    /// Nominal currency of the underlying consumption records.
    pub nominal_currency: String,
    /// The commitment pool the owner has allocated the unit to; mutable at
    /// any time before the unit is selected.
    pub commitment_tier: u16,
    /// Lifecycle state of the record.
    pub state: ConsumptionUnitState,
    /// Floor price derived from the committed pool; recomputed externally
    /// whenever the tier changes.
    pub floor_price: Decimal,
    /// Hashes identifying the consumption-record batch, an append-only
    /// audit-trail reference.
    pub hashes: Vec<String>,
    /// When the record was created; immutable after mint.
    pub created_at: Timestamp,
    /// When the record was last mutated.
    pub updated_at: Timestamp,
}

/// Mathematical value of a [`ConsumptionUnitData`].
#[verifier::ext_equal]
pub ghost struct ConsumptionUnitDataView {
    pub consumption_value: u128,
    pub nominal_quantity: u128,
    pub nominal_currency: Seq<char>,
    pub commitment_tier: u16,
    pub state: ConsumptionUnitState,
    pub floor_price: Decimal,
    pub hashes: Seq<Seq<char>>,
    pub created_at: Timestamp,
    pub updated_at: Timestamp,
}

impl View for ConsumptionUnitData {
    type V = ConsumptionUnitDataView;

    open spec fn view(&self) -> ConsumptionUnitDataView {
        ConsumptionUnitDataView {
            consumption_value: self.consumption_value,
            nominal_quantity: self.nominal_quantity,
            nominal_currency: self.nominal_currency@,
            commitment_tier: self.commitment_tier,
            state: self.state,
            floor_price: self.floor_price,
            hashes: self.hashes.deep_view(),
            created_at: self.created_at,
            updated_at: self.updated_at,
        }
    }
}

impl Clone for ConsumptionUnitData {
    fn clone(&self) -> (r: Self)
        ensures
            r@ == self@,
    {
        let hashes = clone_string_vec(&self.hashes);
        ConsumptionUnitData {
            consumption_value: self.consumption_value,
            nominal_quantity: self.nominal_quantity,
            nominal_currency: self.nominal_currency.clone(),
            commitment_tier: self.commitment_tier,
            state: self.state,
            floor_price: self.floor_price,
            hashes,
            created_at: self.created_at,
            updated_at: self.updated_at,
        }
    }
}

/// Copies a vector of strings, preserving its contents.
fn clone_string_vec(v: &Vec<String>) -> (r: Vec<String>)
    ensures
        r.deep_view() == v.deep_view(),
{
    let mut r: Vec<String> = Vec::new();
    let mut i: usize = 0;
    while i < v.len()
        invariant
            i <= v.len(),
            r.deep_view() =~= v.deep_view().take(i as int),
        decreases v.len() - i,
    {
        let ghost prev = r.deep_view();
        let c = v[i].clone();
        r.push(c);
        proof {
            assert(r.deep_view() =~= prev.push(v@[i as int]@));
            assert(v.deep_view().take(i as int + 1) =~= v.deep_view().take(i as int).push(
                v@[i as int]@));
        }
        i = i + 1;
    }
    proof {
        assert(r.deep_view() =~= v.deep_view());
    }
    r
}

impl ConsumptionUnitData {
    /// Moves the unit to a new commitment pool and stamps the update time.
    /// Everything else, the owner-supplied magnitudes and the audit trail
    /// included, is untouched; the floor price is recomputed by an external
    /// pricing collaborator, not here.
    pub fn update_tier(self, new_tier_id: u16, env: &Env) -> (r: Self)
        ensures
            r@ == (ConsumptionUnitDataView {
                commitment_tier: new_tier_id,
                updated_at: env.block.time,
                ..self@
            }),
    {
        let mut d = self;
        d.commitment_tier = new_tier_id;
        d.updated_at = env.block.time;
        d
    }
}

/// Properties of the block an invocation runs in, as supplied by the host.
#[derive(Clone, Copy, Debug, PartialEq, Eq, Structural)]
pub struct BlockInfo {
    pub height: u64,
    pub time: Timestamp,
}

/// The invocation context the host hands to every call.
#[derive(Clone, Copy, Debug, PartialEq, Eq, Structural)]
pub struct Env {
    pub block: BlockInfo,
}

/// The already-authenticated sender of the current invocation.
#[derive(Debug)]
pub struct MessageInfo {
    pub sender: String,
}

} // verus!
