use vstd::prelude::*;
use crate::records::model::{EntityCoordinateVector, EntityId, EntityType, WorldCoordinates};
use crate::types::{CdisFloat, VarInt};

verus! {

/// The units flags of a Transmitter PDU.
#[derive(Clone, Copy, Debug, PartialEq, Eq, Structural)]
pub struct TransmitterUnits {
    pub world_location_altitude: u8,
    pub relative_antenna_location: u8,
}

/// The modulation type, four codes of 4 bits each.
#[derive(Clone, Copy, Debug, PartialEq, Eq, Structural)]
pub struct ModulationType {
    pub spread_spectrum: u16,
    pub major_modulation: u16,
    pub detail: u16,
    pub radio_system: u16,
}

/// A beam antenna pattern.
#[derive(Clone, Copy, Debug, PartialEq, Eq, Structural)]
pub struct BeamAntennaPattern {
    pub beam_direction_psi: i16,
    pub beam_direction_theta: i16,
    pub beam_direction_phi: i16,
    pub az_beamwidth: i16,
    pub el_beamwidth: i16,
    /// Reference system code, 2 bits.
    pub reference_system: u8,
    pub e_z: i16,
    pub e_x: i16,
    pub phase: i16,
}

/// A variable transmitter parameter: record type code and its octets.
#[derive(Clone, Debug, PartialEq, Eq)]
pub struct VariableTransmitterParameter {
    pub record_type: u32,
    pub fields: Vec<u8>,
}

/// The body of a Transmitter PDU.
#[derive(Clone, Debug, PartialEq, Eq)]
pub struct Transmitter {
    /// The fields-present flags of the body, 8 bits.
    pub fields_present: u8,
    pub units: TransmitterUnits,
    pub full_update_flag: bool,
    pub radio_reference_id: EntityId,
    /// A UVINT16.
    pub radio_number: VarInt,
    pub radio_type: Option<EntityType>,
    /// Transmit state code, 2 bits.
    pub transmit_state: u8,
    /// Input source, a UVINT8.
    pub input_source: VarInt,
    pub antenna_location: Option<WorldCoordinates>,
    pub relative_antenna_location: Option<EntityCoordinateVector>,
    /// Antenna pattern type code, 3 bits.
    pub antenna_pattern_type: Option<u16>,
    pub frequency: Option<CdisFloat>,
    pub transmit_frequency_bandwidth: Option<CdisFloat>,
    pub power: Option<CdisFloat>,
    pub modulation_type: Option<ModulationType>,
    /// Crypto system code, 4 bits.
    pub crypto_system: Option<u16>,
    pub crypto_key_id: Option<u16>,
    pub modulation_parameters: Vec<u8>,
    pub antenna_pattern: Option<BeamAntennaPattern>,
    pub variable_transmitter_parameters: Vec<VariableTransmitterParameter>,
}

} // verus!
