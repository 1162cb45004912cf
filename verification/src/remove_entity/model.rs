use vstd::prelude::*;
use crate::records::model::EntityId;
use crate::types::VarInt;

verus! {

/// The body of a Remove Entity PDU.
#[derive(Clone, Copy, Debug, PartialEq, Eq, Structural)]
pub struct RemoveEntity {
    pub originating_id: EntityId,
    pub receiving_id: EntityId,
    /// A UVINT32.
    pub request_id: VarInt,
}

} // verus!
