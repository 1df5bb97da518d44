//! Marker traits naming the roles a type can play in a collection: the
//! per-token payload, a custom message payload, and the collection-level
//! configuration. Deployments pick concrete types by implementing them.

use vstd::prelude::*;

use crate::types::{ConsumptionUnitData, CUConfig};

verus! {

/// Types usable as a custom message payload.
pub trait Cw721CustomMsg {

}

/// Types usable as the per-token payload of a collection.
pub trait Cw721State {

}

/// Types usable as the collection-level configuration.
pub trait Cw721CollectionConfig {

}

impl Cw721State for ConsumptionUnitData {

}

impl Cw721CustomMsg for ConsumptionUnitData {

}

impl Cw721CollectionConfig for CUConfig {

}

} // verus!
