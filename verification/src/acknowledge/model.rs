use vstd::prelude::*;
use crate::records::model::EntityId;
use crate::types::VarInt;

verus! {

/// The body of an Acknowledge PDU.
#[derive(Clone, Copy, Debug, PartialEq, Eq, Structural)]
pub struct Acknowledge {
    pub originating_id: EntityId,
    pub receiving_id: EntityId,
    /// Acknowledge flag code, 3 bits.
    pub acknowledge_flag: u16,
    /// Response flag code, 2 bits.
    pub response_flag: u16,
    /// A UVINT32.
    pub request_id: VarInt,
}

} // verus!
