use vstd::prelude::*;
use crate::records::model::{EntityCoordinateVector, EntityId, LinearAcceleration, WorldCoordinates};
use crate::types::{CdisFloat, VarInt};

verus! {

/// A designator system name, by its code.
#[derive(Clone, Copy, Debug, PartialEq, Eq, Structural)]
pub struct DesignatorSystemName {
    pub code: u16,
}

/// The units flags of a Designator PDU.
#[derive(Clone, Copy, Debug, PartialEq, Eq, Structural)]
pub struct DesignatorUnits {
    pub location_wrt_entity_units: u8,
    pub world_location_altitude: u8,
}

/// The body of a Designator PDU.
#[derive(Clone, Copy, Debug, PartialEq, Eq, Structural)]
pub struct Designator {
    /// The fields-present flags of the body.
    pub fields_present: u16,
    /// Width in bits of the fields-present flags.
    pub fields_present_length: u8,
    pub units: DesignatorUnits,
    pub full_update_flag: bool,
    pub designating_entity_id: EntityId,
    pub code_name: Option<DesignatorSystemName>,
    pub designated_entity_id: Option<EntityId>,
    pub designator_code: Option<VarInt>,
    pub designator_power: Option<CdisFloat>,
    pub designator_wavelength: Option<CdisFloat>,
    pub spot_wrt_designated_entity: Option<EntityCoordinateVector>,
    pub designator_spot_location: Option<WorldCoordinates>,
    /// Dead reckoning algorithm code, 4 bits.
    pub dr_algorithm: Option<u8>,
    pub dr_entity_linear_acceleration: Option<LinearAcceleration>,
}

} // verus!
