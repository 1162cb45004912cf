use vstd::prelude::*;
use crate::records::model::{EncodingScheme, EntityId};
use crate::types::{CdisFloat, VarInt};

verus! {

/// The body of a Signal PDU.
#[derive(Clone, Debug, PartialEq, Eq)]
pub struct Signal {
    /// The fields-present flags of the body.
    pub fields_present: u16,
    /// Width in bits of the fields-present flags.
    pub fields_present_length: u8,
    pub radio_reference_id: EntityId,
    /// A UVINT16.
    pub radio_number: VarInt,
    pub encoding_scheme: EncodingScheme,
    /// TDL type code, 8 bits.
    pub tdl_type: u16,
    pub sample_rate: Option<CdisFloat>,
    pub samples: Option<u16>,
    pub data: Vec<u8>,
}

} // verus!
