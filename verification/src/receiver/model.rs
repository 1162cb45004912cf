use vstd::prelude::*;
use crate::records::model::EntityId;
use crate::types::VarInt;

verus! {

/// The body of a Receiver PDU.
#[derive(Clone, Copy, Debug, PartialEq, Eq, Structural)]
pub struct Receiver {
    pub radio_reference_id: EntityId,
    /// A UVINT16.
    pub radio_number: VarInt,
    /// Receiver state code, 2 bits.
    pub receiver_state: u16,
    /// Received power, 9 signed bits.
    pub received_power: i16,
    pub transmitter_radio_reference_id: EntityId,
    /// A UVINT16.
    pub transmitter_radio_number: VarInt,
}

} // verus!
