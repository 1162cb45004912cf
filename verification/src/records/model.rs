//! The records that C-DIS PDUs are built from. Fields that hold a DIS
//! enumeration hold its numeric code.

use vstd::prelude::*;
use crate::types::{CdisFloat, CdisTimestamp, VarInt, VarIntKind};

verus! {

/// Angular velocity, three SVINT12 components.
#[derive(Clone, Copy, Debug, PartialEq, Eq, Structural)]
pub struct AngularVelocity {
    pub x: VarInt,
    pub y: VarInt,
    pub z: VarInt,
}

/// Linear acceleration, three SVINT14 components.
#[derive(Clone, Copy, Debug, PartialEq, Eq, Structural)]
pub struct LinearAcceleration {
    pub x: VarInt,
    pub y: VarInt,
    pub z: VarInt,
}

/// A location relative to an entity, three SVINT16 components.
#[derive(Clone, Copy, Debug, PartialEq, Eq, Structural)]
pub struct EntityCoordinateVector {
    pub x: VarInt,
    pub y: VarInt,
    pub z: VarInt,
}

/// Linear velocity, three SVINT16 components.
#[derive(Clone, Copy, Debug, PartialEq, Eq, Structural)]
pub struct LinearVelocity {
    pub x: VarInt,
    pub y: VarInt,
    pub z: VarInt,
}

/// Site, application and entity numbers, each a UVINT16.
#[derive(Clone, Copy, Debug, PartialEq, Eq, Structural)]
pub struct EntityId {
    pub site: VarInt,
    pub application: VarInt,
    pub entity: VarInt,
}

impl EntityId {
    /// Every number is a UVINT16 that fits its size.
    pub open spec fn well_formed(&self) -> bool {
        &&& self.site.kind == VarIntKind::Uvint16 && self.site.fits()
        &&& self.application.kind == VarIntKind::Uvint16 && self.application.fits()
        &&& self.entity.kind == VarIntKind::Uvint16 && self.entity.fits()
    }
}

/// An entity type: kind (4 bits), domain (4 bits), country (9 bits), then
/// category, subcategory, specific and extra as UVINT8.
#[derive(Clone, Copy, Debug, PartialEq, Eq, Structural)]
pub struct EntityType {
    pub kind: u8,
    pub domain: u8,
    pub country: u16,
    pub category: VarInt,
    pub subcategory: VarInt,
    pub specific: VarInt,
    pub extra: VarInt,
}

/// A world location: latitude (31 bits) and longitude (32 bits), both signed,
/// and the altitude above mean sea level as an SVINT24.
#[derive(Clone, Copy, Debug, PartialEq, Eq, Structural)]
pub struct WorldCoordinates {
    pub latitude: i32,
    pub longitude: i32,
    pub altitude_msl: VarInt,
}

/// Orientation angles, 13 signed bits each.
#[derive(Clone, Copy, Debug, PartialEq, Eq, Structural)]
pub struct Orientation {
    pub psi: i16,
    pub theta: i16,
    pub phi: i16,
}

/// The indicator fields of the PDU status octet, each by its numeric code
/// when present. Which of them a PDU carries depends on its type.
#[derive(Clone, Copy, Debug, PartialEq, Eq, Structural)]
pub struct PduStatus {
    pub transferred_entity_indicator: Option<u8>,
    pub lvc_indicator: Option<u8>,
    pub coupled_extension_indicator: Option<u8>,
    pub fire_type_indicator: Option<u8>,
    pub detonation_type_indicator: Option<u8>,
    pub radio_attached_indicator: Option<u8>,
    pub intercom_attached_indicator: Option<u8>,
    pub iff_simulation_mode: Option<u8>,
    pub active_interrogation_indicator: Option<u8>,
}

impl Default for PduStatus {
    fn default() -> (status: Self)
        ensures
            status.transferred_entity_indicator is None,
            status.lvc_indicator is None,
            status.coupled_extension_indicator is None,
            status.fire_type_indicator is None,
            status.detonation_type_indicator is None,
            status.radio_attached_indicator is None,
            status.intercom_attached_indicator is None,
            status.iff_simulation_mode is None,
            status.active_interrogation_indicator is None,
    {
        PduStatus {
            transferred_entity_indicator: None,
            lvc_indicator: None,
            coupled_extension_indicator: None,
            fire_type_indicator: None,
            detonation_type_indicator: None,
            radio_attached_indicator: None,
            intercom_attached_indicator: None,
            iff_simulation_mode: None,
            active_interrogation_indicator: None,
        }
    }
}

/// The C-DIS PDU header.
#[derive(Clone, Copy, Debug, PartialEq, Eq, Structural)]
pub struct CdisHeader {
    /// Protocol version code, 2 bits.
    pub protocol_version: u8,
    /// Exercise identifier, a UVINT8.
    pub exercise_id: VarInt,
    /// DIS PDU type code, 8 bits.
    pub pdu_type: u8,
    pub timestamp: CdisTimestamp,
    /// PDU length, 14 bits.
    pub length: u16,
    pub pdu_status: PduStatus,
}

/// The character set of an entity marking.
#[derive(Clone, Copy, Debug, PartialEq, Eq, Structural)]
pub enum CdisMarkingCharEncoding {
    FiveBit,
    SixBit,
}

impl CdisMarkingCharEncoding {
    pub open spec fn spec_encoding(&self) -> u8 {
        match self {
            CdisMarkingCharEncoding::FiveBit => 0,
            CdisMarkingCharEncoding::SixBit => 1,
        }
    }

    pub open spec fn spec_bit_size(&self) -> nat {
        match self {
            CdisMarkingCharEncoding::FiveBit => 5,
            CdisMarkingCharEncoding::SixBit => 6,
        }
    }

    /// The flag that tells the character sets apart.
    pub fn encoding(&self) -> (flag: u8)
        ensures
            flag == self.spec_encoding(),
    {
        match self {
            CdisMarkingCharEncoding::FiveBit => 0,
            CdisMarkingCharEncoding::SixBit => 1,
        }
    }

    /// Width in bits of one character code.
    pub fn bit_size(&self) -> (n: usize)
        ensures
            n == self.spec_bit_size(),
    {
        match self {
            CdisMarkingCharEncoding::FiveBit => 5,
            CdisMarkingCharEncoding::SixBit => 6,
        }
    }
}

/// An entity marking: its characters, each by its code in the character set.
#[derive(Clone, Debug, PartialEq, Eq)]
pub struct CdisEntityMarking {
    pub marking: Vec<u8>,
    pub char_encoding: CdisMarkingCharEncoding,
}

/// The kinds of variable parameter records.
#[derive(Clone, Copy, Debug, PartialEq, Eq, Structural)]
pub enum VariableParameterRecordType {
    ArticulatedPart,
    AttachedPart,
    Separation,
    EntityType,
    EntityAssociation,
}

#[derive(Clone, Copy, Debug, PartialEq, Eq, Structural)]
pub struct CdisArticulatedPartVP {
    pub change_indicator: u8,
    pub attachment_id: u16,
    /// Code of the articulated part's type metric.
    pub type_metric: u32,
    /// Code of the articulated part's type class.
    pub type_class: u32,
    pub parameter_value: CdisFloat,
}

#[derive(Clone, Copy, Debug, PartialEq, Eq, Structural)]
pub struct CdisAttachedPartVP {
    pub detached_indicator: u8,
    pub attachment_id: u16,
    pub parameter_type: u32,
    pub attached_part_type: EntityType,
}

#[derive(Clone, Copy, Debug, PartialEq, Eq, Structural)]
pub struct CdisEntitySeparationVP {
    pub reason_for_separation: u8,
    pub pre_entity_indicator: u8,
    pub parent_entity_id: EntityId,
    pub station_name: u16,
    pub station_number: u16,
}

#[derive(Clone, Copy, Debug, PartialEq, Eq, Structural)]
pub struct CdisEntityTypeVP {
    pub change_indicator: u8,
    pub attached_part_type: EntityType,
}

#[derive(Clone, Copy, Debug, PartialEq, Eq, Structural)]
pub struct CdisEntityAssociationVP {
    pub change_indicator: u8,
    pub association_status: u8,
    pub association_type: u8,
    pub entity_id: EntityId,
    pub own_station_location: u16,
    pub physical_connection_type: u8,
    pub group_member_type: u8,
    pub group_number: u16,
}

/// A variable parameter record, written in its compressed form.
#[derive(Clone, Copy, Debug, PartialEq, Eq, Structural)]
pub enum CdisVariableParameter {
    ArticulatedPart(CdisArticulatedPartVP),
    AttachedPart(CdisAttachedPartVP),
    EntitySeparation(CdisEntitySeparationVP),
    EntityType(CdisEntityTypeVP),
    EntityAssociation(CdisEntityAssociationVP),
    Unspecified,
}

/// A fixed datum: datum identifier code and a 32-bit value.
#[derive(Clone, Copy, Debug, PartialEq, Eq, Structural)]
pub struct FixedDatum {
    pub datum_id: u32,
    pub datum_value: u32,
}

/// A variable datum: datum identifier code and its octets.
#[derive(Clone, Debug, PartialEq, Eq)]
pub struct VariableDatum {
    pub datum_id: u32,
    pub datum_value: Vec<u8>,
}

/// The encoding scheme of a Signal PDU, class and type by their codes.
#[allow(inconsistent_fields)]
#[derive(Clone, Copy, Debug, PartialEq, Eq, Structural)]
pub enum EncodingScheme {
    EncodedAudio { encoding_class: u16, encoding_type: u16 },
    RawBinaryData { encoding_class: u16, nr_of_messages: u8 },
    Unspecified { encoding_class: u16, encoding_type: u8 },
}

/// Beam data: azimuth and elevation center and sweep, and the sweep sync (10 bits).
#[derive(Clone, Copy, Debug, PartialEq, Eq, Structural)]
pub struct BeamData {
    pub az_center: VarInt,
    pub az_sweep: VarInt,
    pub el_center: VarInt,
    pub el_sweep: VarInt,
    pub sweep_sync: u16,
}

/// The header of a layer of an IFF PDU: layer number (4 bits), layer specific
/// information (8 bits), and the layer's length (14 bits).
#[derive(Clone, Copy, Debug, PartialEq, Eq, Structural)]
pub struct LayerHeader {
    pub layer_number: u8,
    pub layer_specific_information: u8,
}

} // verus!
