use vstd::prelude::*;
use crate::records::model::{BeamData, EntityCoordinateVector, EntityId};
use crate::types::{CdisFloat, VarInt};

verus! {

/// The body of an Electromagnetic Emission PDU.
#[derive(Clone, Debug, PartialEq, Eq)]
pub struct ElectromagneticEmission {
    pub full_update_flag: bool,
    pub emitting_id: EntityId,
    pub event_id: EntityId,
    /// State update indicator code, 1 bit.
    pub state_update_indicator: u8,
    pub fundamental_params: Vec<FundamentalParameter>,
    pub beam_data: Vec<BeamData>,
    pub site_app_pairs: Vec<SiteAppPair>,
    pub emitter_systems: Vec<EmitterSystem>,
}

#[derive(Clone, Copy, Debug, PartialEq, Eq, Structural)]
pub struct FundamentalParameter {
    pub frequency: CdisFloat,
    pub frequency_range: CdisFloat,
    /// Effective radiated power, 8 bits.
    pub erp: u8,
    pub prf: CdisFloat,
    pub pulse_width: CdisFloat,
}

/// A site and an application number, each a UVINT16.
#[derive(Clone, Copy, Debug, PartialEq, Eq, Structural)]
pub struct SiteAppPair {
    pub site: VarInt,
    pub application: VarInt,
}

#[derive(Clone, Debug, PartialEq, Eq)]
pub struct EmitterSystem {
    /// Emitter name code, 16 bits.
    pub name: Option<u16>,
    /// Emitter function code, 8 bits.
    pub function: Option<u8>,
    /// A UVINT8.
    pub number: VarInt,
    pub location_with_respect_to_entity: Option<EntityCoordinateVector>,
    pub emitter_beams: Vec<EmitterBeam>,
}

#[derive(Clone, Debug, PartialEq, Eq)]
pub struct EmitterBeam {
    /// A UVINT8.
    pub beam_id: VarInt,
    pub beam_parameter_index: u16,
    /// Index into the fundamental parameters, 5 bits.
    pub fundamental_params_index: Option<u8>,
    /// Index into the beam data, 5 bits.
    pub beam_data_index: Option<u8>,
    /// Beam function code, 5 bits.
    pub beam_function: u8,
    pub high_density_track_jam: bool,
    /// Beam status code, 1 bit.
    pub beam_status: u8,
    pub jamming_technique_kind: Option<VarInt>,
    pub jamming_technique_category: Option<VarInt>,
    pub jamming_technique_subcategory: Option<VarInt>,
    pub jamming_technique_specific: Option<VarInt>,
    pub track_jam: Vec<TrackJam>,
}

#[derive(Clone, Copy, Debug, PartialEq, Eq, Structural)]
pub struct TrackJam {
    /// Index into the site-application pairs, 6 bits.
    pub site_app_pair_index: u8,
    pub entity_id: EntityId,
    pub emitter_number: Option<VarInt>,
    pub beam_number: Option<VarInt>,
}

} // verus!
