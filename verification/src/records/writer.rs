use vstd::prelude::*;
use crate::bits::{lemma_written_part, written_at};
use dis_rs::enumerations as dis_enums;
use crate::bits::{bits_value, int_bits, splice, lemma_int_bits_len, lemma_splice_append, lemma_splice_frame, lemma_splice_written};
use crate::constants::{
    EIGHT_BITS, ELEVEN_BITS, FIVE_BITS, FOUR_BITS, FOURTEEN_BITS, MAX_VARIABLE_DATUM_LENGTH_BITS,
    NINE_BITS, ONE_BIT, SIX_BITS, SIXTEEN_BITS, TEN_BITS, THIRTEEN_BITS, THIRTY_ONE_BITS,
    THIRTY_TWO_BITS, THREE_BITS, TWELVE_BITS, TWO_BITS,
};
use crate::records::model::{
    AngularVelocity, BeamData, CdisArticulatedPartVP, CdisAttachedPartVP, CdisEntityAssociationVP,
    CdisEntityMarking, CdisEntitySeparationVP, CdisEntityTypeVP, CdisHeader, CdisMarkingCharEncoding, CdisVariableParameter,
    EncodingScheme, EntityCoordinateVector, EntityId, EntityType, FixedDatum, LayerHeader,
    LinearAcceleration, LinearVelocity, Orientation, PduStatus, VariableDatum,
    VariableParameterRecordType, WorldCoordinates,
};
use crate::types::{VarInt, uvint8_of};
use crate::bits::codes_bits;
use crate::writing::{
    BitBuffer, SerializeCdis, buffer_bits, lemma_octets_serializable, seq_encoding, serialize_all,
    write_codes, write_integer_bits, write_signed_bits,
};

verus! {

broadcast use lemma_int_bits_len;

/// The code of an indicator that is present, 0 for one that is absent.
pub open spec fn indicator_code(indicator: Option<u8>) -> u8 {
    match indicator {
        Some(code) => code,
        None => 0,
    }
}

/// The PDU status octet for the given indicators and PDU type, as dis-rs
/// writes it: each indicator shifted to its place (TEI bit 0, LVC bit 1, CEI
/// bit 3, FTI, DTI, RAI, IAI and ISM bit 4, AII bit 5), and of them only those
/// that the PDU type carries.
pub open spec fn pdu_status_octet(status: PduStatus, pdu_type: u8) -> u8 {
    let tei = indicator_code(status.transferred_entity_indicator);
    let lvc = indicator_code(status.lvc_indicator) << 1u8;
    let cei = indicator_code(status.coupled_extension_indicator) << 3u8;
    let fti = indicator_code(status.fire_type_indicator) << 4u8;
    let dti = indicator_code(status.detonation_type_indicator) << 4u8;
    let rai = indicator_code(status.radio_attached_indicator) << 4u8;
    let iai = indicator_code(status.intercom_attached_indicator) << 4u8;
    let ism = indicator_code(status.iff_simulation_mode) << 4u8;
    let aii = indicator_code(status.active_interrogation_indicator) << 5u8;
    if pdu_type == 1 || pdu_type == 23 || pdu_type == 24 || pdu_type == 41 || pdu_type == 67 {
        cei | lvc | tei
    } else if pdu_type == 2 {
        fti | cei | lvc
    } else if pdu_type == 3 {
        dti | cei | lvc
    } else if 25 <= pdu_type <= 27 {
        rai | cei | lvc | tei
    } else if pdu_type == 28 {
        aii | ism | cei | lvc | tei
    } else if pdu_type == 31 || pdu_type == 32 {
        iai | cei | lvc | tei
    } else if pdu_type == 72 {
        lvc
    } else if 4 <= pdu_type <= 71 {
        cei | lvc
    } else {
        0
    }
}

/// `dis_rs::serialize_pdu_status`, on the `PduStatus` that holds the given
/// indicator codes and on the PDU type of code `pdu_type`. dis-rs turns each
/// code into its enumeration and back without change (every generated
/// conversion maps a value to a variant that converts back to the same value,
/// with `Unspecified` for the rest), so the octet is the table that
/// `pdu_status_octet` states.
#[verifier::external_body]
fn serialize_pdu_status(status: &PduStatus, pdu_type: u8) -> (octet: u8)
    ensures
        octet == pdu_status_octet(*status, pdu_type),
{
    let status = dis_rs::model::PduStatus {
        transferred_entity_indicator: status.transferred_entity_indicator.map(dis_enums::TransferredEntityIndicator::from),
        lvc_indicator: status.lvc_indicator.map(dis_enums::LvcIndicator::from),
        coupled_extension_indicator: status.coupled_extension_indicator.map(dis_enums::CoupledExtensionIndicator::from),
        fire_type_indicator: status.fire_type_indicator.map(dis_enums::FireTypeIndicator::from),
        detonation_type_indicator: status.detonation_type_indicator.map(dis_enums::DetonationTypeIndicator::from),
        radio_attached_indicator: status.radio_attached_indicator.map(dis_enums::RadioAttachedIndicator::from),
        intercom_attached_indicator: status.intercom_attached_indicator.map(dis_enums::IntercomAttachedIndicator::from),
        iff_simulation_mode: status.iff_simulation_mode.map(dis_enums::IffSimulationMode::from),
        active_interrogation_indicator: status.active_interrogation_indicator.map(dis_enums::ActiveInterrogationIndicator::from),
    };
    dis_rs::serialize_pdu_status(&status, &dis_enums::PduType::from(pdu_type))
}

impl CdisHeader {
    /// The bits of the header with `status` as its PDU status octet: protocol
    /// version (2 bits), exercise id (UVINT8), PDU type (8 bits), timestamp,
    /// length (14 bits), then the status octet.
    pub open spec fn encoding_with_status(&self, status: u8) -> Seq<bool> {
        int_bits(self.protocol_version as int, 2) + self.exercise_id.encoding()
            + int_bits(self.pdu_type as int, 8) + self.timestamp.encoding()
            + int_bits(self.length as int, 14) + int_bits(status as int, 8)
    }

    /// Length in bits of the header.
    pub fn record_length(&self) -> (n: usize)
        requires
            self.serializable(),
        ensures
            n == self.encoding().len(),
    {
        TWO_BITS + self.exercise_id.record_length() + EIGHT_BITS + crate::constants::TWENTY_SIX_BITS
            + FOURTEEN_BITS + EIGHT_BITS
    }

    /// Write the header with `status` as its PDU status octet.
    pub fn serialize_with_status(&self, status: u8, buf: &mut BitBuffer, cursor: usize) -> (next: usize)
        requires
            self.serializable(),
            cursor + self.encoding_with_status(status).len() <= buffer_bits(*old(buf)).len(),
        ensures
            next == cursor + self.encoding_with_status(status).len(),
            buffer_bits(*final(buf)) == splice(buffer_bits(*old(buf)), cursor as int, self.encoding_with_status(status)),
    {
        let ghost b0 = buffer_bits(*buf);
        let ghost e1 = int_bits(self.protocol_version as int, 2);
        let ghost e2 = self.exercise_id.encoding();
        let ghost e3 = int_bits(self.pdu_type as int, 8);
        let ghost e4 = self.timestamp.encoding();
        let ghost e5 = int_bits(self.length as int, 14);
        let ghost e6 = int_bits(status as int, 8);
        let c = write_integer_bits(buf, cursor, TWO_BITS, self.protocol_version as u64);
        proof { lemma_splice_append(b0, cursor as int, e1, e2); }
        let c = self.exercise_id.serialize(buf, c);
        proof { lemma_splice_append(b0, cursor as int, e1 + e2, e3); }
        let c = write_integer_bits(buf, c, EIGHT_BITS, self.pdu_type as u64);
        proof { lemma_splice_append(b0, cursor as int, e1 + e2 + e3, e4); }
        let c = self.timestamp.serialize(buf, c);
        proof { lemma_splice_append(b0, cursor as int, e1 + e2 + e3 + e4, e5); }
        let c = write_integer_bits(buf, c, FOURTEEN_BITS, self.length as u64);
        proof { lemma_splice_append(b0, cursor as int, e1 + e2 + e3 + e4 + e5, e6); }
        write_integer_bits(buf, c, EIGHT_BITS, status as u64)
    }
}

impl SerializeCdis for CdisHeader {
    open spec fn serializable(&self) -> bool {
        self.exercise_id.serializable()
    }

    /// The header with the PDU status octet for its indicators and PDU type.
    open spec fn encoding(&self) -> Seq<bool> {
        self.encoding_with_status(pdu_status_octet(self.pdu_status, self.pdu_type))
    }

    fn serialize(&self, buf: &mut BitBuffer, cursor: usize) -> (next: usize) {
        let status = serialize_pdu_status(&self.pdu_status, self.pdu_type);
        self.serialize_with_status(status, buf, cursor)
    }
}

impl SerializeCdis for AngularVelocity {
    open spec fn serializable(&self) -> bool {
        self.x.serializable() && self.y.serializable() && self.z.serializable()
    }

    open spec fn encoding(&self) -> Seq<bool> {
        self.x.encoding() + self.y.encoding() + self.z.encoding()
    }

    fn serialize(&self, buf: &mut BitBuffer, cursor: usize) -> (next: usize) {
        let ghost b0 = buffer_bits(*buf);
        proof { lemma_splice_append(b0, cursor as int, self.x.encoding(), self.y.encoding()); }
        let cursor1 = self.x.serialize(buf, cursor);
        let cursor1 = self.y.serialize(buf, cursor1);
        proof { lemma_splice_append(b0, cursor as int, self.x.encoding() + self.y.encoding(), self.z.encoding()); }
        self.z.serialize(buf, cursor1)
    }
}

impl SerializeCdis for LinearAcceleration {
    open spec fn serializable(&self) -> bool {
        self.x.serializable() && self.y.serializable() && self.z.serializable()
    }

    open spec fn encoding(&self) -> Seq<bool> {
        self.x.encoding() + self.y.encoding() + self.z.encoding()
    }

    fn serialize(&self, buf: &mut BitBuffer, cursor: usize) -> (next: usize) {
        let ghost b0 = buffer_bits(*buf);
        proof { lemma_splice_append(b0, cursor as int, self.x.encoding(), self.y.encoding()); }
        let cursor1 = self.x.serialize(buf, cursor);
        let cursor1 = self.y.serialize(buf, cursor1);
        proof { lemma_splice_append(b0, cursor as int, self.x.encoding() + self.y.encoding(), self.z.encoding()); }
        self.z.serialize(buf, cursor1)
    }
}

impl SerializeCdis for EntityCoordinateVector {
    open spec fn serializable(&self) -> bool {
        self.x.serializable() && self.y.serializable() && self.z.serializable()
    }

    open spec fn encoding(&self) -> Seq<bool> {
        self.x.encoding() + self.y.encoding() + self.z.encoding()
    }

    fn serialize(&self, buf: &mut BitBuffer, cursor: usize) -> (next: usize) {
        let ghost b0 = buffer_bits(*buf);
        proof { lemma_splice_append(b0, cursor as int, self.x.encoding(), self.y.encoding()); }
        let cursor1 = self.x.serialize(buf, cursor);
        let cursor1 = self.y.serialize(buf, cursor1);
        proof { lemma_splice_append(b0, cursor as int, self.x.encoding() + self.y.encoding(), self.z.encoding()); }
        self.z.serialize(buf, cursor1)
    }
}

impl SerializeCdis for EntityId {
    open spec fn serializable(&self) -> bool {
        self.site.serializable() && self.application.serializable() && self.entity.serializable()
    }

    open spec fn encoding(&self) -> Seq<bool> {
        self.site.encoding() + self.application.encoding() + self.entity.encoding()
    }

    fn serialize(&self, buf: &mut BitBuffer, cursor: usize) -> (next: usize) {
        let ghost b0 = buffer_bits(*buf);
        proof { lemma_splice_append(b0, cursor as int, self.site.encoding(), self.application.encoding()); }
        let cursor1 = self.site.serialize(buf, cursor);
        let cursor1 = self.application.serialize(buf, cursor1);
        proof { lemma_splice_append(b0, cursor as int, self.site.encoding() + self.application.encoding(), self.entity.encoding()); }
        self.entity.serialize(buf, cursor1)
    }
}

impl SerializeCdis for EntityType {
    open spec fn serializable(&self) -> bool {
        &&& self.category.serializable()
        &&& self.subcategory.serializable()
        &&& self.specific.serializable()
        &&& self.extra.serializable()
    }

    open spec fn encoding(&self) -> Seq<bool> {
        int_bits(self.kind as int, 4) + int_bits(self.domain as int, 4) + int_bits(self.country as int, 9)
            + self.category.encoding() + self.subcategory.encoding() + self.specific.encoding()
            + self.extra.encoding()
    }

    fn serialize(&self, buf: &mut BitBuffer, cursor: usize) -> (next: usize) {
        let ghost b0 = buffer_bits(*buf);
        let ghost e1 = int_bits(self.kind as int, 4);
        let ghost e2 = int_bits(self.domain as int, 4);
        let ghost e3 = int_bits(self.country as int, 9);
        let ghost e4 = self.category.encoding();
        let ghost e5 = self.subcategory.encoding();
        let ghost e6 = self.specific.encoding();
        let ghost e7 = self.extra.encoding();
        let c = write_integer_bits(buf, cursor, FOUR_BITS, self.kind as u64);
        proof { lemma_splice_append(b0, cursor as int, e1, e2); }
        let c = write_integer_bits(buf, c, FOUR_BITS, self.domain as u64);
        proof { lemma_splice_append(b0, cursor as int, e1 + e2, e3); }
        let c = write_integer_bits(buf, c, NINE_BITS, self.country as u64);
        proof { lemma_splice_append(b0, cursor as int, e1 + e2 + e3, e4); }
        let c = self.category.serialize(buf, c);
        proof { lemma_splice_append(b0, cursor as int, e1 + e2 + e3 + e4, e5); }
        let c = self.subcategory.serialize(buf, c);
        proof { lemma_splice_append(b0, cursor as int, e1 + e2 + e3 + e4 + e5, e6); }
        let c = self.specific.serialize(buf, c);
        proof { lemma_splice_append(b0, cursor as int, e1 + e2 + e3 + e4 + e5 + e6, e7); }
        self.extra.serialize(buf, c)
    }
}

impl SerializeCdis for LinearVelocity {
    open spec fn serializable(&self) -> bool {
        self.x.serializable() && self.y.serializable() && self.z.serializable()
    }

    open spec fn encoding(&self) -> Seq<bool> {
        self.x.encoding() + self.y.encoding() + self.z.encoding()
    }

    fn serialize(&self, buf: &mut BitBuffer, cursor: usize) -> (next: usize) {
        let ghost b0 = buffer_bits(*buf);
        proof { lemma_splice_append(b0, cursor as int, self.x.encoding(), self.y.encoding()); }
        let cursor1 = self.x.serialize(buf, cursor);
        let cursor1 = self.y.serialize(buf, cursor1);
        proof { lemma_splice_append(b0, cursor as int, self.x.encoding() + self.y.encoding(), self.z.encoding()); }
        self.z.serialize(buf, cursor1)
    }
}

impl SerializeCdis for WorldCoordinates {
    open spec fn serializable(&self) -> bool {
        self.altitude_msl.serializable()
    }

    open spec fn encoding(&self) -> Seq<bool> {
        int_bits(self.latitude as int, 31) + int_bits(self.longitude as int, 32) + self.altitude_msl.encoding()
    }

    fn serialize(&self, buf: &mut BitBuffer, cursor: usize) -> (next: usize) {
        let ghost b0 = buffer_bits(*buf);
        let ghost e1 = int_bits(self.latitude as int, 31);
        let ghost e2 = int_bits(self.longitude as int, 32);
        let c = write_signed_bits(buf, cursor, THIRTY_ONE_BITS, self.latitude as i64);
        proof { lemma_splice_append(b0, cursor as int, e1, e2); }
        let c = write_signed_bits(buf, c, THIRTY_TWO_BITS, self.longitude as i64);
        proof { lemma_splice_append(b0, cursor as int, e1 + e2, self.altitude_msl.encoding()); }
        self.altitude_msl.serialize(buf, c)
    }
}

impl SerializeCdis for Orientation {
    open spec fn serializable(&self) -> bool {
        true
    }

    open spec fn encoding(&self) -> Seq<bool> {
        int_bits(self.psi as int, 13) + int_bits(self.theta as int, 13) + int_bits(self.phi as int, 13)
    }

    fn serialize(&self, buf: &mut BitBuffer, cursor: usize) -> (next: usize) {
        let ghost b0 = buffer_bits(*buf);
        let ghost e1 = int_bits(self.psi as int, 13);
        let ghost e2 = int_bits(self.theta as int, 13);
        let ghost e3 = int_bits(self.phi as int, 13);
        let c = write_signed_bits(buf, cursor, THIRTEEN_BITS, self.psi as i64);
        proof { lemma_splice_append(b0, cursor as int, e1, e2); }
        let c = write_signed_bits(buf, c, THIRTEEN_BITS, self.theta as i64);
        proof { lemma_splice_append(b0, cursor as int, e1 + e2, e3); }
        write_signed_bits(buf, c, THIRTEEN_BITS, self.phi as i64)
    }
}

impl CdisEntityMarking {
    /// The bits of the marking: its length (4 bits), the character set flag
    /// (1 bit), then each character code.
    pub open spec fn spec_encoding(&self) -> Seq<bool> {
        int_bits(self.marking.len() as int, 4) + int_bits(self.char_encoding.spec_encoding() as int, 1)
            + codes_bits(self.marking@, self.char_encoding.spec_bit_size())
    }
}

impl SerializeCdis for CdisEntityMarking {
    open spec fn serializable(&self) -> bool {
        true
    }

    open spec fn encoding(&self) -> Seq<bool> {
        self.spec_encoding()
    }

    fn serialize(&self, buf: &mut BitBuffer, cursor: usize) -> (next: usize) {
        let ghost b0 = buffer_bits(*buf);
        let ghost e1 = int_bits(self.marking.len() as int, 4);
        let ghost e2 = int_bits(self.char_encoding.spec_encoding() as int, 1);
        let ghost e3 = codes_bits(self.marking@, self.char_encoding.spec_bit_size());
        let c = write_integer_bits(buf, cursor, FOUR_BITS, self.marking.len() as u64);
        proof { lemma_splice_append(b0, cursor as int, e1, e2); }
        let c = write_integer_bits(buf, c, ONE_BIT, self.char_encoding.encoding() as u64);
        proof { lemma_splice_append(b0, cursor as int, e1 + e2, e3); }
        write_codes(buf, c, &self.marking, self.char_encoding.bit_size())
    }
}

/// The code of a variable parameter record type.
pub open spec fn vp_record_type_value(record_type: VariableParameterRecordType) -> u8 {
    match record_type {
        VariableParameterRecordType::ArticulatedPart => 0,
        VariableParameterRecordType::AttachedPart => 1,
        VariableParameterRecordType::Separation => 2,
        VariableParameterRecordType::EntityType => 3,
        VariableParameterRecordType::EntityAssociation => 4,
    }
}

/// `u8::from(dis_rs::enumerations::VariableParameterRecordType)`: the code of
/// a variable parameter record type in the DIS enumerations (SISO-REF-010),
/// 0 to 4 for articulated part, attached part, separation, entity type and
/// entity association.
#[verifier::external_body]
fn vp_record_type_code(record_type: VariableParameterRecordType) -> (code: u8)
    ensures
        code == vp_record_type_value(record_type),
{
    u8::from(match record_type {
        VariableParameterRecordType::ArticulatedPart => dis_rs::enumerations::VariableParameterRecordType::ArticulatedPart,
        VariableParameterRecordType::AttachedPart => dis_rs::enumerations::VariableParameterRecordType::AttachedPart,
        VariableParameterRecordType::Separation => dis_rs::enumerations::VariableParameterRecordType::Separation,
        VariableParameterRecordType::EntityType => dis_rs::enumerations::VariableParameterRecordType::EntityType,
        VariableParameterRecordType::EntityAssociation => dis_rs::enumerations::VariableParameterRecordType::EntityAssociation,
    })
}

impl SerializeCdis for CdisVariableParameter {
    open spec fn serializable(&self) -> bool {
        match self {
            CdisVariableParameter::ArticulatedPart(vp) => vp.serializable(),
            CdisVariableParameter::AttachedPart(vp) => vp.serializable(),
            CdisVariableParameter::EntitySeparation(vp) => vp.serializable(),
            CdisVariableParameter::EntityType(vp) => vp.serializable(),
            CdisVariableParameter::EntityAssociation(vp) => vp.serializable(),
            CdisVariableParameter::Unspecified => true,
        }
    }

    /// The compressed flag (set), then the record type (3 bits) and the record;
    /// an unspecified record is the flag alone.
    open spec fn encoding(&self) -> Seq<bool> {
        int_bits(1, 1) + match self {
            CdisVariableParameter::ArticulatedPart(vp) =>
                int_bits(vp_record_type_value(VariableParameterRecordType::ArticulatedPart) as int, 3) + vp.encoding(),
            CdisVariableParameter::AttachedPart(vp) =>
                int_bits(vp_record_type_value(VariableParameterRecordType::AttachedPart) as int, 3) + vp.encoding(),
            CdisVariableParameter::EntitySeparation(vp) =>
                int_bits(vp_record_type_value(VariableParameterRecordType::Separation) as int, 3) + vp.encoding(),
            CdisVariableParameter::EntityType(vp) =>
                int_bits(vp_record_type_value(VariableParameterRecordType::EntityType) as int, 3) + vp.encoding(),
            CdisVariableParameter::EntityAssociation(vp) =>
                int_bits(vp_record_type_value(VariableParameterRecordType::EntityAssociation) as int, 3) + vp.encoding(),
            CdisVariableParameter::Unspecified => Seq::empty(),
        }
    }

    fn serialize(&self, buf: &mut BitBuffer, cursor: usize) -> (next: usize) {
        let ghost b0 = buffer_bits(*buf);
        let ghost e1 = int_bits(1, 1);
        let c = write_integer_bits(buf, cursor, ONE_BIT, 1);
        match self {
            CdisVariableParameter::ArticulatedPart(vp) => {
                let code = vp_record_type_code(VariableParameterRecordType::ArticulatedPart);
                proof {
                    lemma_splice_append(b0, cursor as int, e1, int_bits(code as int, 3));
                    lemma_splice_append(b0, cursor as int, e1 + int_bits(code as int, 3), vp.encoding());
                    assert(e1 + int_bits(code as int, 3) + vp.encoding() =~= self.encoding());
                }
                let c = write_integer_bits(buf, c, THREE_BITS, code as u64);
                vp.serialize(buf, c)
            },
            CdisVariableParameter::AttachedPart(vp) => {
                let code = vp_record_type_code(VariableParameterRecordType::AttachedPart);
                proof {
                    lemma_splice_append(b0, cursor as int, e1, int_bits(code as int, 3));
                    lemma_splice_append(b0, cursor as int, e1 + int_bits(code as int, 3), vp.encoding());
                    assert(e1 + int_bits(code as int, 3) + vp.encoding() =~= self.encoding());
                }
                let c = write_integer_bits(buf, c, THREE_BITS, code as u64);
                vp.serialize(buf, c)
            },
            CdisVariableParameter::EntitySeparation(vp) => {
                let code = vp_record_type_code(VariableParameterRecordType::Separation);
                proof {
                    lemma_splice_append(b0, cursor as int, e1, int_bits(code as int, 3));
                    lemma_splice_append(b0, cursor as int, e1 + int_bits(code as int, 3), vp.encoding());
                    assert(e1 + int_bits(code as int, 3) + vp.encoding() =~= self.encoding());
                }
                let c = write_integer_bits(buf, c, THREE_BITS, code as u64);
                vp.serialize(buf, c)
            },
            CdisVariableParameter::EntityType(vp) => {
                let code = vp_record_type_code(VariableParameterRecordType::EntityType);
                proof {
                    lemma_splice_append(b0, cursor as int, e1, int_bits(code as int, 3));
                    lemma_splice_append(b0, cursor as int, e1 + int_bits(code as int, 3), vp.encoding());
                    assert(e1 + int_bits(code as int, 3) + vp.encoding() =~= self.encoding());
                }
                let c = write_integer_bits(buf, c, THREE_BITS, code as u64);
                vp.serialize(buf, c)
            },
            CdisVariableParameter::EntityAssociation(vp) => {
                let code = vp_record_type_code(VariableParameterRecordType::EntityAssociation);
                proof {
                    lemma_splice_append(b0, cursor as int, e1, int_bits(code as int, 3));
                    lemma_splice_append(b0, cursor as int, e1 + int_bits(code as int, 3), vp.encoding());
                    assert(e1 + int_bits(code as int, 3) + vp.encoding() =~= self.encoding());
                }
                let c = write_integer_bits(buf, c, THREE_BITS, code as u64);
                vp.serialize(buf, c)
            },
            CdisVariableParameter::Unspecified => {
                assert(e1 + Seq::<bool>::empty() =~= e1);
                c
            },
        }
    }
}

impl SerializeCdis for CdisArticulatedPartVP {
    open spec fn serializable(&self) -> bool {
        self.type_metric + self.type_class <= u32::MAX && self.parameter_value.serializable()
    }

    /// Change indicator (8 bits), attachment id (10 bits), the parameter type
    /// as the sum of type metric and type class (14 bits), then the value.
    open spec fn encoding(&self) -> Seq<bool> {
        int_bits(self.change_indicator as int, 8) + int_bits(self.attachment_id as int, 10)
            + int_bits(self.type_metric + self.type_class, 14) + self.parameter_value.encoding()
    }

    fn serialize(&self, buf: &mut BitBuffer, cursor: usize) -> (next: usize) {
        let ghost b0 = buffer_bits(*buf);
        let ghost e1 = int_bits(self.change_indicator as int, 8);
        let ghost e2 = int_bits(self.attachment_id as int, 10);
        let ghost e3 = int_bits(self.type_metric + self.type_class, 14);
        let c = write_integer_bits(buf, cursor, EIGHT_BITS, self.change_indicator as u64);
        proof { lemma_splice_append(b0, cursor as int, e1, e2); }
        let c = write_integer_bits(buf, c, TEN_BITS, self.attachment_id as u64);
        let type_metric: u32 = self.type_metric;
        let type_class: u32 = self.type_class;
        let parameter_type = type_metric + type_class;
        proof { lemma_splice_append(b0, cursor as int, e1 + e2, e3); }
        let c = write_integer_bits(buf, c, FOURTEEN_BITS, parameter_type as u64);
        proof { lemma_splice_append(b0, cursor as int, e1 + e2 + e3, self.parameter_value.encoding()); }
        self.parameter_value.serialize(buf, c)
    }
}

impl SerializeCdis for CdisAttachedPartVP {
    open spec fn serializable(&self) -> bool {
        self.attached_part_type.serializable()
    }

    open spec fn encoding(&self) -> Seq<bool> {
        int_bits(self.detached_indicator as int, 1) + int_bits(self.attachment_id as int, 10)
            + int_bits(self.parameter_type as int, 11) + self.attached_part_type.encoding()
    }

    fn serialize(&self, buf: &mut BitBuffer, cursor: usize) -> (next: usize) {
        let ghost b0 = buffer_bits(*buf);
        let ghost e1 = int_bits(self.detached_indicator as int, 1);
        let ghost e2 = int_bits(self.attachment_id as int, 10);
        let ghost e3 = int_bits(self.parameter_type as int, 11);
        let c = write_integer_bits(buf, cursor, ONE_BIT, self.detached_indicator as u64);
        proof { lemma_splice_append(b0, cursor as int, e1, e2); }
        let c = write_integer_bits(buf, c, TEN_BITS, self.attachment_id as u64);
        proof { lemma_splice_append(b0, cursor as int, e1 + e2, e3); }
        let c = write_integer_bits(buf, c, ELEVEN_BITS, self.parameter_type as u64);
        proof { lemma_splice_append(b0, cursor as int, e1 + e2 + e3, self.attached_part_type.encoding()); }
        self.attached_part_type.serialize(buf, c)
    }
}

impl SerializeCdis for CdisEntitySeparationVP {
    open spec fn serializable(&self) -> bool {
        self.parent_entity_id.serializable()
    }

    open spec fn encoding(&self) -> Seq<bool> {
        int_bits(self.reason_for_separation as int, 3) + int_bits(self.pre_entity_indicator as int, 3)
            + self.parent_entity_id.encoding() + int_bits(self.station_name as int, 6)
            + int_bits(self.station_number as int, 12)
    }

    fn serialize(&self, buf: &mut BitBuffer, cursor: usize) -> (next: usize) {
        let ghost b0 = buffer_bits(*buf);
        let ghost e1 = int_bits(self.reason_for_separation as int, 3);
        let ghost e2 = int_bits(self.pre_entity_indicator as int, 3);
        let ghost e3 = self.parent_entity_id.encoding();
        let ghost e4 = int_bits(self.station_name as int, 6);
        let ghost e5 = int_bits(self.station_number as int, 12);
        let c = write_integer_bits(buf, cursor, THREE_BITS, self.reason_for_separation as u64);
        proof { lemma_splice_append(b0, cursor as int, e1, e2); }
        let c = write_integer_bits(buf, c, THREE_BITS, self.pre_entity_indicator as u64);
        proof { lemma_splice_append(b0, cursor as int, e1 + e2, e3); }
        let c = self.parent_entity_id.serialize(buf, c);
        proof { lemma_splice_append(b0, cursor as int, e1 + e2 + e3, e4); }
        let c = write_integer_bits(buf, c, SIX_BITS, self.station_name as u64);
        proof { lemma_splice_append(b0, cursor as int, e1 + e2 + e3 + e4, e5); }
        write_integer_bits(buf, c, TWELVE_BITS, self.station_number as u64)
    }
}

impl SerializeCdis for CdisEntityTypeVP {
    open spec fn serializable(&self) -> bool {
        self.attached_part_type.serializable()
    }

    open spec fn encoding(&self) -> Seq<bool> {
        int_bits(self.change_indicator as int, 1) + self.attached_part_type.encoding()
    }

    fn serialize(&self, buf: &mut BitBuffer, cursor: usize) -> (next: usize) {
        let ghost b0 = buffer_bits(*buf);
        let c = write_integer_bits(buf, cursor, ONE_BIT, self.change_indicator as u64);
        proof {
            lemma_splice_append(b0, cursor as int, int_bits(self.change_indicator as int, 1),
                self.attached_part_type.encoding());
        }
        self.attached_part_type.serialize(buf, c)
    }
}

impl SerializeCdis for CdisEntityAssociationVP {
    open spec fn serializable(&self) -> bool {
        self.entity_id.serializable()
    }

    open spec fn encoding(&self) -> Seq<bool> {
        int_bits(self.change_indicator as int, 1) + int_bits(self.association_status as int, 4)
            + int_bits(self.association_type as int, 8) + self.entity_id.encoding()
            + int_bits(self.own_station_location as int, 6)
            + int_bits(self.physical_connection_type as int, 5)
            + int_bits(self.group_member_type as int, 4) + int_bits(self.group_number as int, 16)
    }

    fn serialize(&self, buf: &mut BitBuffer, cursor: usize) -> (next: usize) {
        let ghost b0 = buffer_bits(*buf);
        let ghost e1 = int_bits(self.change_indicator as int, 1);
        let ghost e2 = int_bits(self.association_status as int, 4);
        let ghost e3 = int_bits(self.association_type as int, 8);
        let ghost e4 = self.entity_id.encoding();
        let ghost e5 = int_bits(self.own_station_location as int, 6);
        let ghost e6 = int_bits(self.physical_connection_type as int, 5);
        let ghost e7 = int_bits(self.group_member_type as int, 4);
        let ghost e8 = int_bits(self.group_number as int, 16);
        let c = write_integer_bits(buf, cursor, ONE_BIT, self.change_indicator as u64);
        proof { lemma_splice_append(b0, cursor as int, e1, e2); }
        let c = write_integer_bits(buf, c, FOUR_BITS, self.association_status as u64);
        proof { lemma_splice_append(b0, cursor as int, e1 + e2, e3); }
        let c = write_integer_bits(buf, c, EIGHT_BITS, self.association_type as u64);
        proof { lemma_splice_append(b0, cursor as int, e1 + e2 + e3, e4); }
        let c = self.entity_id.serialize(buf, c);
        proof { lemma_splice_append(b0, cursor as int, e1 + e2 + e3 + e4, e5); }
        let c = write_integer_bits(buf, c, SIX_BITS, self.own_station_location as u64);
        proof { lemma_splice_append(b0, cursor as int, e1 + e2 + e3 + e4 + e5, e6); }
        let c = write_integer_bits(buf, c, FIVE_BITS, self.physical_connection_type as u64);
        proof { lemma_splice_append(b0, cursor as int, e1 + e2 + e3 + e4 + e5 + e6, e7); }
        let c = write_integer_bits(buf, c, FOUR_BITS, self.group_member_type as u64);
        proof { lemma_splice_append(b0, cursor as int, e1 + e2 + e3 + e4 + e5 + e6 + e7, e8); }
        write_integer_bits(buf, c, SIXTEEN_BITS, self.group_number as u64)
    }
}

impl SerializeCdis for FixedDatum {
    open spec fn serializable(&self) -> bool {
        true
    }

    open spec fn encoding(&self) -> Seq<bool> {
        int_bits(self.datum_id as int, 32) + int_bits(self.datum_value as int, 32)
    }

    fn serialize(&self, buf: &mut BitBuffer, cursor: usize) -> (next: usize) {
        let ghost b0 = buffer_bits(*buf);
        let c = write_integer_bits(buf, cursor, THIRTY_TWO_BITS, self.datum_id as u64);
        proof {
            lemma_splice_append(b0, cursor as int, int_bits(self.datum_id as int, 32),
                int_bits(self.datum_value as int, 32));
        }
        write_integer_bits(buf, c, THIRTY_TWO_BITS, self.datum_value as u64)
    }
}

/// The value of the length field of a variable datum: its length in bits, or
/// `MAX_VARIABLE_DATUM_LENGTH_BITS` where that does not fit in 16 bits.
pub open spec fn variable_datum_length_field(len: nat) -> u16 {
    if len * 8 <= u16::MAX {
        (len * 8) as u16
    } else {
        MAX_VARIABLE_DATUM_LENGTH_BITS
    }
}

/// `num_traits::FromPrimitive::from_usize` for `u16`: the value when it fits
/// in a `u16`, `None` otherwise.
#[verifier::external_body]
fn u16_from_usize(value: usize) -> (r: Option<u16>)
    ensures
        r == if value <= u16::MAX { Some(value as u16) } else { None::<u16> },
{
    <u16 as num_traits::FromPrimitive>::from_usize(value)
}

impl SerializeCdis for VariableDatum {
    open spec fn serializable(&self) -> bool {
        self.datum_value.len() * 8 <= usize::MAX
    }

    /// Datum id (32 bits), the datum's length in bits (14 bits), then its octets.
    open spec fn encoding(&self) -> Seq<bool> {
        int_bits(self.datum_id as int, 32)
            + int_bits(variable_datum_length_field(self.datum_value.len() as nat) as int, 14)
            + seq_encoding(self.datum_value@)
    }

    fn serialize(&self, buf: &mut BitBuffer, cursor: usize) -> (next: usize) {
        let ghost b0 = buffer_bits(*buf);
        let ghost e1 = int_bits(self.datum_id as int, 32);
        let ghost e2 = int_bits(variable_datum_length_field(self.datum_value.len() as nat) as int, 14);
        let c = write_integer_bits(buf, cursor, THIRTY_TWO_BITS, self.datum_id as u64);
        let length_bits = match u16_from_usize(self.datum_value.len() * EIGHT_BITS) {
            Some(bits) => bits,
            None => MAX_VARIABLE_DATUM_LENGTH_BITS,
        };
        proof { lemma_splice_append(b0, cursor as int, e1, e2); }
        let c = write_integer_bits(buf, c, FOURTEEN_BITS, length_bits as u64);
        proof {
            lemma_splice_append(b0, cursor as int, e1 + e2, seq_encoding(self.datum_value@));
            lemma_octets_serializable(self.datum_value@);
        }
        serialize_all(&self.datum_value, buf, c)
    }
}

impl EncodingScheme {
    /// The encoding class and the encoding type octet that the scheme writes.
    pub open spec fn class_and_type(&self) -> (u16, u8) {
        match self {
            EncodingScheme::EncodedAudio { encoding_class, encoding_type } => (*encoding_class, *encoding_type as u8),
            EncodingScheme::RawBinaryData { encoding_class, nr_of_messages } => (*encoding_class, *nr_of_messages),
            EncodingScheme::Unspecified { encoding_class, encoding_type } => (*encoding_class, *encoding_type),
        }
    }
}

impl SerializeCdis for EncodingScheme {
    open spec fn serializable(&self) -> bool {
        true
    }

    /// The encoding class (2 bits), then the encoding type (or number of
    /// messages) as a UVINT8.
    open spec fn encoding(&self) -> Seq<bool> {
        int_bits(self.class_and_type().0 as int, 2) + uvint8_of(self.class_and_type().1).encoding()
    }

    fn serialize(&self, buf: &mut BitBuffer, cursor: usize) -> (next: usize) {
        let ghost b0 = buffer_bits(*buf);
        let (encoding_class, encoding_type) = match self {
            EncodingScheme::EncodedAudio { encoding_class, encoding_type } => (*encoding_class, *encoding_type as u8),
            EncodingScheme::RawBinaryData { encoding_class, nr_of_messages } => (*encoding_class, *nr_of_messages),
            EncodingScheme::Unspecified { encoding_class, encoding_type } => (*encoding_class, *encoding_type),
        };
        let c = write_integer_bits(buf, cursor, TWO_BITS, encoding_class as u64);
        let encoding_type = VarInt::uvint8(encoding_type);
        proof {
            lemma_splice_append(b0, cursor as int, int_bits(encoding_class as int, 2), encoding_type.encoding());
        }
        encoding_type.serialize(buf, c)
    }
}

impl SerializeCdis for BeamData {
    open spec fn serializable(&self) -> bool {
        self.az_center.serializable()
    }

    /// The azimuth center, written four times over, then the sweep sync
    /// (10 bits); the azimuth sweep and the elevation fields are not written.
    open spec fn encoding(&self) -> Seq<bool> {
        self.az_center.encoding() + self.az_center.encoding() + self.az_center.encoding()
            + self.az_center.encoding() + int_bits(self.sweep_sync as int, 10)
    }

    fn serialize(&self, buf: &mut BitBuffer, cursor: usize) -> (next: usize) {
        let ghost b0 = buffer_bits(*buf);
        let ghost e = self.az_center.encoding();
        proof { lemma_splice_append(b0, cursor as int, e, e); }
        let c = self.az_center.serialize(buf, cursor);
        let c = self.az_center.serialize(buf, c);
        proof { lemma_splice_append(b0, cursor as int, e + e, e); }
        let c = self.az_center.serialize(buf, c);
        proof { lemma_splice_append(b0, cursor as int, e + e + e, e); }
        let c = self.az_center.serialize(buf, c);
        proof { lemma_splice_append(b0, cursor as int, e + e + e + e, int_bits(self.sweep_sync as int, 10)); }
        write_integer_bits(buf, c, TEN_BITS, self.sweep_sync as u64)
    }
}

impl LayerHeader {
    /// The bits of the layer header, given the length of the layer's body.
    pub open spec fn encoding_with_length(&self, body_length: nat) -> Seq<bool> {
        int_bits(self.layer_number as int, 4) + int_bits(self.layer_specific_information as int, 8)
            + int_bits(26 + body_length as int, 14)
    }

    /// Length in bits of the layer header.
    pub fn record_length(&self) -> (n: usize)
        ensures
            n == 26,
    {
        FOUR_BITS + EIGHT_BITS + FOURTEEN_BITS
    }

    /// Write the layer header, with the length of the whole layer (header and
    /// `body_length` bits of body) in its length field.
    pub fn serialize_with_length(&self, body_length: usize, buf: &mut BitBuffer, cursor: usize) -> (next: usize)
        requires
            26 + body_length <= usize::MAX,
            cursor + 26 <= buffer_bits(*old(buf)).len(),
        ensures
            next == cursor + 26,
            self.encoding_with_length(body_length as nat).len() == 26,
            buffer_bits(*final(buf)) == splice(
                buffer_bits(*old(buf)),
                cursor as int,
                self.encoding_with_length(body_length as nat),
            ),
    {
        let ghost b0 = buffer_bits(*buf);
        let ghost e1 = int_bits(self.layer_number as int, 4);
        let ghost e2 = int_bits(self.layer_specific_information as int, 8);
        let ghost e3 = int_bits(26 + body_length as int, 14);
        let c = write_integer_bits(buf, cursor, FOUR_BITS, self.layer_number as u64);
        proof { lemma_splice_append(b0, cursor as int, e1, e2); }
        let c = write_integer_bits(buf, c, EIGHT_BITS, self.layer_specific_information as u64);
        proof { lemma_splice_append(b0, cursor as int, e1 + e2, e3); }
        write_integer_bits(buf, c, FOURTEEN_BITS, (self.record_length() + body_length) as u64)
    }
}

/// The body length moves only the layer header's length field: for two
/// body lengths, the first 12 bits of the header (layer number and layer
/// specific information) are the same, and the 14-bit length field reads back
/// as 26 plus the body length wherever that fits in 14 bits, so the two
/// fields differ by the difference of the body lengths. Written over the
/// same bits at the same cursor, the two results agree on every bit outside
/// that field.
pub proof fn lemma_layer_header_body_length_moves_length_field(
    header: LayerHeader,
    bits: Seq<bool>,
    cursor: int,
    body_length1: nat,
    body_length2: nat,
)
    requires
        0 <= cursor,
        cursor + 26 <= bits.len(),
    ensures
        header.encoding_with_length(body_length1).len() == 26,
        header.encoding_with_length(body_length1).subrange(0, 12)
            == header.encoding_with_length(body_length2).subrange(0, 12),
        26 + body_length1 < 0x4000 ==> bits_value(header.encoding_with_length(body_length1).subrange(12, 26))
            == 26 + body_length1,
        26 + body_length2 < 0x4000 ==> bits_value(header.encoding_with_length(body_length2).subrange(12, 26))
            == 26 + body_length2,
        forall|k: int| 0 <= k < bits.len() && !(cursor + 12 <= k < cursor + 26) ==>
            #[trigger] splice(bits, cursor, header.encoding_with_length(body_length1))[k]
                == splice(bits, cursor, header.encoding_with_length(body_length2))[k],
{
    let e1 = int_bits(header.layer_number as int, 4);
    let e2 = int_bits(header.layer_specific_information as int, 8);
    let f1 = int_bits(26 + body_length1 as int, 14);
    let f2 = int_bits(26 + body_length2 as int, 14);
    let h1 = header.encoding_with_length(body_length1);
    let h2 = header.encoding_with_length(body_length2);
    assert(h1.subrange(0, 12) =~= e1 + e2);
    assert(h2.subrange(0, 12) =~= e1 + e2);
    assert(h1.subrange(12, 26) =~= f1);
    assert(h2.subrange(12, 26) =~= f2);
    vstd::arithmetic::power2::lemma2_to64();
    if 26 + body_length1 < 0x4000 {
        crate::bits::lemma_unsigned_roundtrip(26 + body_length1 as int, 14);
    }
    if 26 + body_length2 < 0x4000 {
        crate::bits::lemma_unsigned_roundtrip(26 + body_length2 as int, 14);
    }
    assert forall|k: int| 0 <= k < bits.len() && !(cursor + 12 <= k < cursor + 26) implies
        #[trigger] splice(bits, cursor, h1)[k] == splice(bits, cursor, h2)[k] by {
        if cursor <= k < cursor + 12 {
            lemma_splice_written(bits, cursor, h1);
            lemma_splice_written(bits, cursor, h2);
            assert(splice(bits, cursor, h1)[k] == h1[k - cursor]);
            assert(splice(bits, cursor, h2)[k] == h2[k - cursor]);
            assert(h1[k - cursor] == h1.subrange(0, 12)[k - cursor]);
            assert(h2[k - cursor] == h2.subrange(0, 12)[k - cursor]);
        } else {
            lemma_splice_frame(bits, cursor, h1, k);
            lemma_splice_frame(bits, cursor, h2, k);
        }
    }
}

/// Where an angular velocity is written, its x, y and z components stand in that order,
/// each right after the one before.
pub proof fn lemma_angular_velocity_layout(x: AngularVelocity, bits: Seq<bool>, cursor: int)
    requires
        0 <= cursor,
        cursor + x.encoding().len() <= bits.len(),
    ensures
        ({
            let w = splice(bits, cursor, x.encoding());
            let x_bits = x.x.encoding();
            let y_bits = x.y.encoding();
            let z_bits = x.z.encoding();
            let o0 = cursor;
            let o1 = o0 + x_bits.len();
            let o2 = o1 + y_bits.len();
            &&& x.encoding().len() == x_bits.len() + y_bits.len() + z_bits.len()
            &&& written_at(w, o0, x_bits)
            &&& written_at(w, o1, y_bits)
            &&& written_at(w, o2, z_bits)
        }),
{
    let e = x.encoding();
    let w = splice(bits, cursor, e);
    let x_bits = x.x.encoding();
    let y_bits = x.y.encoding();
    let z_bits = x.z.encoding();
    let o0 = 0int;
    let o1 = o0 + x_bits.len();
    let o2 = o1 + y_bits.len();
    assert(e.subrange(o0, o0 + x_bits.len()) =~= x_bits);
    lemma_written_part(bits, cursor, e, o0, x_bits);
    assert(e.subrange(o1, o1 + y_bits.len()) =~= y_bits);
    lemma_written_part(bits, cursor, e, o1, y_bits);
    assert(e.subrange(o2, o2 + z_bits.len()) =~= z_bits);
    lemma_written_part(bits, cursor, e, o2, z_bits);
}

/// Where a linear acceleration is written, its x, y and z components stand in that order,
/// each right after the one before.
pub proof fn lemma_linear_acceleration_layout(x: LinearAcceleration, bits: Seq<bool>, cursor: int)
    requires
        0 <= cursor,
        cursor + x.encoding().len() <= bits.len(),
    ensures
        ({
            let w = splice(bits, cursor, x.encoding());
            let x_bits = x.x.encoding();
            let y_bits = x.y.encoding();
            let z_bits = x.z.encoding();
            let o0 = cursor;
            let o1 = o0 + x_bits.len();
            let o2 = o1 + y_bits.len();
            &&& x.encoding().len() == x_bits.len() + y_bits.len() + z_bits.len()
            &&& written_at(w, o0, x_bits)
            &&& written_at(w, o1, y_bits)
            &&& written_at(w, o2, z_bits)
        }),
{
    let e = x.encoding();
    let w = splice(bits, cursor, e);
    let x_bits = x.x.encoding();
    let y_bits = x.y.encoding();
    let z_bits = x.z.encoding();
    let o0 = 0int;
    let o1 = o0 + x_bits.len();
    let o2 = o1 + y_bits.len();
    assert(e.subrange(o0, o0 + x_bits.len()) =~= x_bits);
    lemma_written_part(bits, cursor, e, o0, x_bits);
    assert(e.subrange(o1, o1 + y_bits.len()) =~= y_bits);
    lemma_written_part(bits, cursor, e, o1, y_bits);
    assert(e.subrange(o2, o2 + z_bits.len()) =~= z_bits);
    lemma_written_part(bits, cursor, e, o2, z_bits);
}

/// Where an entity coordinate vector is written, its x, y and z components stand in that order,
/// each right after the one before.
pub proof fn lemma_entity_coordinate_vector_layout(x: EntityCoordinateVector, bits: Seq<bool>, cursor: int)
    requires
        0 <= cursor,
        cursor + x.encoding().len() <= bits.len(),
    ensures
        ({
            let w = splice(bits, cursor, x.encoding());
            let x_bits = x.x.encoding();
            let y_bits = x.y.encoding();
            let z_bits = x.z.encoding();
            let o0 = cursor;
            let o1 = o0 + x_bits.len();
            let o2 = o1 + y_bits.len();
            &&& x.encoding().len() == x_bits.len() + y_bits.len() + z_bits.len()
            &&& written_at(w, o0, x_bits)
            &&& written_at(w, o1, y_bits)
            &&& written_at(w, o2, z_bits)
        }),
{
    let e = x.encoding();
    let w = splice(bits, cursor, e);
    let x_bits = x.x.encoding();
    let y_bits = x.y.encoding();
    let z_bits = x.z.encoding();
    let o0 = 0int;
    let o1 = o0 + x_bits.len();
    let o2 = o1 + y_bits.len();
    assert(e.subrange(o0, o0 + x_bits.len()) =~= x_bits);
    lemma_written_part(bits, cursor, e, o0, x_bits);
    assert(e.subrange(o1, o1 + y_bits.len()) =~= y_bits);
    lemma_written_part(bits, cursor, e, o1, y_bits);
    assert(e.subrange(o2, o2 + z_bits.len()) =~= z_bits);
    lemma_written_part(bits, cursor, e, o2, z_bits);
}

/// Where a linear velocity is written, its x, y and z components stand in that order,
/// each right after the one before.
pub proof fn lemma_linear_velocity_layout(x: LinearVelocity, bits: Seq<bool>, cursor: int)
    requires
        0 <= cursor,
        cursor + x.encoding().len() <= bits.len(),
    ensures
        ({
            let w = splice(bits, cursor, x.encoding());
            let x_bits = x.x.encoding();
            let y_bits = x.y.encoding();
            let z_bits = x.z.encoding();
            let o0 = cursor;
            let o1 = o0 + x_bits.len();
            let o2 = o1 + y_bits.len();
            &&& x.encoding().len() == x_bits.len() + y_bits.len() + z_bits.len()
            &&& written_at(w, o0, x_bits)
            &&& written_at(w, o1, y_bits)
            &&& written_at(w, o2, z_bits)
        }),
{
    let e = x.encoding();
    let w = splice(bits, cursor, e);
    let x_bits = x.x.encoding();
    let y_bits = x.y.encoding();
    let z_bits = x.z.encoding();
    let o0 = 0int;
    let o1 = o0 + x_bits.len();
    let o2 = o1 + y_bits.len();
    assert(e.subrange(o0, o0 + x_bits.len()) =~= x_bits);
    lemma_written_part(bits, cursor, e, o0, x_bits);
    assert(e.subrange(o1, o1 + y_bits.len()) =~= y_bits);
    lemma_written_part(bits, cursor, e, o1, y_bits);
    assert(e.subrange(o2, o2 + z_bits.len()) =~= z_bits);
    lemma_written_part(bits, cursor, e, o2, z_bits);
}

/// Where a header is written, its fields stand in this order, each right after
/// the one before: protocol version (2 bits), exercise id, PDU type (8 bits),
/// timestamp, length (14 bits), then the PDU status octet for its indicators
/// and PDU type.
pub proof fn lemma_cdis_header_layout(x: CdisHeader, bits: Seq<bool>, cursor: int)
    requires
        0 <= cursor,
        cursor + x.encoding().len() <= bits.len(),
    ensures
        ({
            let w = splice(bits, cursor, x.encoding());
            let protocol_version = int_bits(x.protocol_version as int, 2);
            let exercise_id = x.exercise_id.encoding();
            let pdu_type = int_bits(x.pdu_type as int, 8);
            let timestamp = x.timestamp.encoding();
            let length = int_bits(x.length as int, 14);
            let status = int_bits(pdu_status_octet(x.pdu_status, x.pdu_type) as int, 8);
            let o0 = cursor;
            let o1 = o0 + protocol_version.len();
            let o2 = o1 + exercise_id.len();
            let o3 = o2 + pdu_type.len();
            let o4 = o3 + timestamp.len();
            let o5 = o4 + length.len();
            &&& x.encoding().len() == protocol_version.len() + exercise_id.len() + pdu_type.len() + timestamp.len() + length.len() + status.len()
            &&& written_at(w, o0, protocol_version)
            &&& written_at(w, o1, exercise_id)
            &&& written_at(w, o2, pdu_type)
            &&& written_at(w, o3, timestamp)
            &&& written_at(w, o4, length)
            &&& written_at(w, o5, status)
        }),
{
    let e = x.encoding();
    let w = splice(bits, cursor, e);
    let protocol_version = int_bits(x.protocol_version as int, 2);
    let exercise_id = x.exercise_id.encoding();
    let pdu_type = int_bits(x.pdu_type as int, 8);
    let timestamp = x.timestamp.encoding();
    let length = int_bits(x.length as int, 14);
    let status = int_bits(pdu_status_octet(x.pdu_status, x.pdu_type) as int, 8);
    let o0 = 0int;
    let o1 = o0 + protocol_version.len();
    let o2 = o1 + exercise_id.len();
    let o3 = o2 + pdu_type.len();
    let o4 = o3 + timestamp.len();
    let o5 = o4 + length.len();
    assert(e.subrange(o0, o0 + protocol_version.len()) =~= protocol_version);
    lemma_written_part(bits, cursor, e, o0, protocol_version);
    assert(e.subrange(o1, o1 + exercise_id.len()) =~= exercise_id);
    lemma_written_part(bits, cursor, e, o1, exercise_id);
    assert(e.subrange(o2, o2 + pdu_type.len()) =~= pdu_type);
    lemma_written_part(bits, cursor, e, o2, pdu_type);
    assert(e.subrange(o3, o3 + timestamp.len()) =~= timestamp);
    lemma_written_part(bits, cursor, e, o3, timestamp);
    assert(e.subrange(o4, o4 + length.len()) =~= length);
    lemma_written_part(bits, cursor, e, o4, length);
    assert(e.subrange(o5, o5 + status.len()) =~= status);
    lemma_written_part(bits, cursor, e, o5, status);
}

/// Where an entity id is written, the site, application and entity numbers stand
/// in that order, each right after the one before.
pub proof fn lemma_entity_id_layout(x: EntityId, bits: Seq<bool>, cursor: int)
    requires
        0 <= cursor,
        cursor + x.encoding().len() <= bits.len(),
    ensures
        ({
            let w = splice(bits, cursor, x.encoding());
            let site = x.site.encoding();
            let application = x.application.encoding();
            let entity = x.entity.encoding();
            let o0 = cursor;
            let o1 = o0 + site.len();
            let o2 = o1 + application.len();
            &&& x.encoding().len() == site.len() + application.len() + entity.len()
            &&& written_at(w, o0, site)
            &&& written_at(w, o1, application)
            &&& written_at(w, o2, entity)
        }),
{
    let e = x.encoding();
    let w = splice(bits, cursor, e);
    let site = x.site.encoding();
    let application = x.application.encoding();
    let entity = x.entity.encoding();
    let o0 = 0int;
    let o1 = o0 + site.len();
    let o2 = o1 + application.len();
    assert(e.subrange(o0, o0 + site.len()) =~= site);
    lemma_written_part(bits, cursor, e, o0, site);
    assert(e.subrange(o1, o1 + application.len()) =~= application);
    lemma_written_part(bits, cursor, e, o1, application);
    assert(e.subrange(o2, o2 + entity.len()) =~= entity);
    lemma_written_part(bits, cursor, e, o2, entity);
}

/// Where an entity type is written, its fields stand in this order, each right
/// after the one before: kind (4 bits), domain (4 bits), country (9 bits),
/// category, subcategory, specific, extra.
pub proof fn lemma_entity_type_layout(x: EntityType, bits: Seq<bool>, cursor: int)
    requires
        0 <= cursor,
        cursor + x.encoding().len() <= bits.len(),
    ensures
        ({
            let w = splice(bits, cursor, x.encoding());
            let kind = int_bits(x.kind as int, 4);
            let domain = int_bits(x.domain as int, 4);
            let country = int_bits(x.country as int, 9);
            let category = x.category.encoding();
            let subcategory = x.subcategory.encoding();
            let specific = x.specific.encoding();
            let extra = x.extra.encoding();
            let o0 = cursor;
            let o1 = o0 + kind.len();
            let o2 = o1 + domain.len();
            let o3 = o2 + country.len();
            let o4 = o3 + category.len();
            let o5 = o4 + subcategory.len();
            let o6 = o5 + specific.len();
            &&& x.encoding().len() == kind.len() + domain.len() + country.len() + category.len() + subcategory.len() + specific.len() + extra.len()
            &&& written_at(w, o0, kind)
            &&& written_at(w, o1, domain)
            &&& written_at(w, o2, country)
            &&& written_at(w, o3, category)
            &&& written_at(w, o4, subcategory)
            &&& written_at(w, o5, specific)
            &&& written_at(w, o6, extra)
        }),
{
    let e = x.encoding();
    let w = splice(bits, cursor, e);
    let kind = int_bits(x.kind as int, 4);
    let domain = int_bits(x.domain as int, 4);
    let country = int_bits(x.country as int, 9);
    let category = x.category.encoding();
    let subcategory = x.subcategory.encoding();
    let specific = x.specific.encoding();
    let extra = x.extra.encoding();
    let o0 = 0int;
    let o1 = o0 + kind.len();
    let o2 = o1 + domain.len();
    let o3 = o2 + country.len();
    let o4 = o3 + category.len();
    let o5 = o4 + subcategory.len();
    let o6 = o5 + specific.len();
    assert(e.subrange(o0, o0 + kind.len()) =~= kind);
    lemma_written_part(bits, cursor, e, o0, kind);
    assert(e.subrange(o1, o1 + domain.len()) =~= domain);
    lemma_written_part(bits, cursor, e, o1, domain);
    assert(e.subrange(o2, o2 + country.len()) =~= country);
    lemma_written_part(bits, cursor, e, o2, country);
    assert(e.subrange(o3, o3 + category.len()) =~= category);
    lemma_written_part(bits, cursor, e, o3, category);
    assert(e.subrange(o4, o4 + subcategory.len()) =~= subcategory);
    lemma_written_part(bits, cursor, e, o4, subcategory);
    assert(e.subrange(o5, o5 + specific.len()) =~= specific);
    lemma_written_part(bits, cursor, e, o5, specific);
    assert(e.subrange(o6, o6 + extra.len()) =~= extra);
    lemma_written_part(bits, cursor, e, o6, extra);
}

/// Where a world location is written, the latitude (31 bits), the longitude
/// (32 bits) and the altitude stand in that order.
pub proof fn lemma_world_coordinates_layout(x: WorldCoordinates, bits: Seq<bool>, cursor: int)
    requires
        0 <= cursor,
        cursor + x.encoding().len() <= bits.len(),
    ensures
        ({
            let w = splice(bits, cursor, x.encoding());
            let latitude = int_bits(x.latitude as int, 31);
            let longitude = int_bits(x.longitude as int, 32);
            let altitude = x.altitude_msl.encoding();
            let o0 = cursor;
            let o1 = o0 + latitude.len();
            let o2 = o1 + longitude.len();
            &&& x.encoding().len() == latitude.len() + longitude.len() + altitude.len()
            &&& written_at(w, o0, latitude)
            &&& written_at(w, o1, longitude)
            &&& written_at(w, o2, altitude)
        }),
{
    let e = x.encoding();
    let w = splice(bits, cursor, e);
    let latitude = int_bits(x.latitude as int, 31);
    let longitude = int_bits(x.longitude as int, 32);
    let altitude = x.altitude_msl.encoding();
    let o0 = 0int;
    let o1 = o0 + latitude.len();
    let o2 = o1 + longitude.len();
    assert(e.subrange(o0, o0 + latitude.len()) =~= latitude);
    lemma_written_part(bits, cursor, e, o0, latitude);
    assert(e.subrange(o1, o1 + longitude.len()) =~= longitude);
    lemma_written_part(bits, cursor, e, o1, longitude);
    assert(e.subrange(o2, o2 + altitude.len()) =~= altitude);
    lemma_written_part(bits, cursor, e, o2, altitude);
}

/// Where an orientation is written, psi, theta and phi stand in that order, 13
/// bits each.
pub proof fn lemma_orientation_layout(x: Orientation, bits: Seq<bool>, cursor: int)
    requires
        0 <= cursor,
        cursor + x.encoding().len() <= bits.len(),
    ensures
        ({
            let w = splice(bits, cursor, x.encoding());
            let psi = int_bits(x.psi as int, 13);
            let theta = int_bits(x.theta as int, 13);
            let phi = int_bits(x.phi as int, 13);
            let o0 = cursor;
            let o1 = o0 + psi.len();
            let o2 = o1 + theta.len();
            &&& x.encoding().len() == psi.len() + theta.len() + phi.len()
            &&& written_at(w, o0, psi)
            &&& written_at(w, o1, theta)
            &&& written_at(w, o2, phi)
        }),
{
    let e = x.encoding();
    let w = splice(bits, cursor, e);
    let psi = int_bits(x.psi as int, 13);
    let theta = int_bits(x.theta as int, 13);
    let phi = int_bits(x.phi as int, 13);
    let o0 = 0int;
    let o1 = o0 + psi.len();
    let o2 = o1 + theta.len();
    assert(e.subrange(o0, o0 + psi.len()) =~= psi);
    lemma_written_part(bits, cursor, e, o0, psi);
    assert(e.subrange(o1, o1 + theta.len()) =~= theta);
    lemma_written_part(bits, cursor, e, o1, theta);
    assert(e.subrange(o2, o2 + phi.len()) =~= phi);
    lemma_written_part(bits, cursor, e, o2, phi);
}

/// Where a marking is written, its number of characters (4 bits), the
/// character set flag (1 bit: 0 for five-bit, 1 for six-bit codes), then
/// each character code in the width of the set stand in that order.
pub proof fn lemma_entity_marking_layout(x: CdisEntityMarking, bits: Seq<bool>, cursor: int)
    requires
        0 <= cursor,
        cursor + x.encoding().len() <= bits.len(),
    ensures
        ({
            let w = splice(bits, cursor, x.encoding());
            let count = int_bits(x.marking.len() as int, 4);
            let set_flag = int_bits(match x.char_encoding { CdisMarkingCharEncoding::FiveBit => 0int, CdisMarkingCharEncoding::SixBit => 1int }, 1);
            let codes = codes_bits(x.marking@, match x.char_encoding { CdisMarkingCharEncoding::FiveBit => 5nat, CdisMarkingCharEncoding::SixBit => 6nat });
            let o0 = cursor;
            let o1 = o0 + count.len();
            let o2 = o1 + set_flag.len();
            &&& x.encoding().len() == count.len() + set_flag.len() + codes.len()
            &&& written_at(w, o0, count)
            &&& written_at(w, o1, set_flag)
            &&& written_at(w, o2, codes)
        }),
{
    let e = x.encoding();
    let w = splice(bits, cursor, e);
    let count = int_bits(x.marking.len() as int, 4);
    let set_flag = int_bits(match x.char_encoding { CdisMarkingCharEncoding::FiveBit => 0int, CdisMarkingCharEncoding::SixBit => 1int }, 1);
    let codes = codes_bits(x.marking@, match x.char_encoding { CdisMarkingCharEncoding::FiveBit => 5nat, CdisMarkingCharEncoding::SixBit => 6nat });
    let o0 = 0int;
    let o1 = o0 + count.len();
    let o2 = o1 + set_flag.len();
    assert(e.subrange(o0, o0 + count.len()) =~= count);
    lemma_written_part(bits, cursor, e, o0, count);
    assert(e.subrange(o1, o1 + set_flag.len()) =~= set_flag);
    lemma_written_part(bits, cursor, e, o1, set_flag);
    assert(e.subrange(o2, o2 + codes.len()) =~= codes);
    lemma_written_part(bits, cursor, e, o2, codes);
}

/// Where a variable parameter is written, the compressed flag (set) comes
/// first, then the record type in 3 bits (0 articulated part, 1 attached part,
/// 2 separation, 3 entity type, 4 entity association) and the record; an
/// unspecified parameter is the flag alone.
pub proof fn lemma_variable_parameter_layout(x: CdisVariableParameter, bits: Seq<bool>, cursor: int)
    requires
        0 <= cursor,
        cursor + x.encoding().len() <= bits.len(),
    ensures
        ({
            let w = splice(bits, cursor, x.encoding());
            let flag = int_bits(1, 1);
            let record_type = match x { CdisVariableParameter::ArticulatedPart(_) => int_bits(0, 3), CdisVariableParameter::AttachedPart(_) => int_bits(1, 3), CdisVariableParameter::EntitySeparation(_) => int_bits(2, 3), CdisVariableParameter::EntityType(_) => int_bits(3, 3), CdisVariableParameter::EntityAssociation(_) => int_bits(4, 3), CdisVariableParameter::Unspecified => Seq::empty() };
            let record = match x { CdisVariableParameter::ArticulatedPart(vp) => vp.encoding(), CdisVariableParameter::AttachedPart(vp) => vp.encoding(), CdisVariableParameter::EntitySeparation(vp) => vp.encoding(), CdisVariableParameter::EntityType(vp) => vp.encoding(), CdisVariableParameter::EntityAssociation(vp) => vp.encoding(), CdisVariableParameter::Unspecified => Seq::empty() };
            let o0 = cursor;
            let o1 = o0 + flag.len();
            let o2 = o1 + record_type.len();
            &&& x.encoding().len() == flag.len() + record_type.len() + record.len()
            &&& written_at(w, o0, flag)
            &&& written_at(w, o1, record_type)
            &&& written_at(w, o2, record)
        }),
{
    let e = x.encoding();
    let w = splice(bits, cursor, e);
    let flag = int_bits(1, 1);
    let record_type = match x { CdisVariableParameter::ArticulatedPart(_) => int_bits(0, 3), CdisVariableParameter::AttachedPart(_) => int_bits(1, 3), CdisVariableParameter::EntitySeparation(_) => int_bits(2, 3), CdisVariableParameter::EntityType(_) => int_bits(3, 3), CdisVariableParameter::EntityAssociation(_) => int_bits(4, 3), CdisVariableParameter::Unspecified => Seq::empty() };
    let record = match x { CdisVariableParameter::ArticulatedPart(vp) => vp.encoding(), CdisVariableParameter::AttachedPart(vp) => vp.encoding(), CdisVariableParameter::EntitySeparation(vp) => vp.encoding(), CdisVariableParameter::EntityType(vp) => vp.encoding(), CdisVariableParameter::EntityAssociation(vp) => vp.encoding(), CdisVariableParameter::Unspecified => Seq::empty() };
    let o0 = 0int;
    let o1 = o0 + flag.len();
    let o2 = o1 + record_type.len();
    assert(e.subrange(o0, o0 + flag.len()) =~= flag);
    lemma_written_part(bits, cursor, e, o0, flag);
    assert(e.subrange(o1, o1 + record_type.len()) =~= record_type);
    lemma_written_part(bits, cursor, e, o1, record_type);
    assert(e.subrange(o2, o2 + record.len()) =~= record);
    lemma_written_part(bits, cursor, e, o2, record);
}

/// Where an articulated part is written, the change indicator (8 bits), the
/// attachment id (10 bits), the parameter type (type metric plus type class,
/// 14 bits) and the parameter value stand in that order.
pub proof fn lemma_articulated_part_layout(x: CdisArticulatedPartVP, bits: Seq<bool>, cursor: int)
    requires
        0 <= cursor,
        cursor + x.encoding().len() <= bits.len(),
    ensures
        ({
            let w = splice(bits, cursor, x.encoding());
            let change_indicator = int_bits(x.change_indicator as int, 8);
            let attachment_id = int_bits(x.attachment_id as int, 10);
            let parameter_type = int_bits(x.type_metric + x.type_class, 14);
            let value = x.parameter_value.encoding();
            let o0 = cursor;
            let o1 = o0 + change_indicator.len();
            let o2 = o1 + attachment_id.len();
            let o3 = o2 + parameter_type.len();
            &&& x.encoding().len() == change_indicator.len() + attachment_id.len() + parameter_type.len() + value.len()
            &&& written_at(w, o0, change_indicator)
            &&& written_at(w, o1, attachment_id)
            &&& written_at(w, o2, parameter_type)
            &&& written_at(w, o3, value)
        }),
{
    let e = x.encoding();
    let w = splice(bits, cursor, e);
    let change_indicator = int_bits(x.change_indicator as int, 8);
    let attachment_id = int_bits(x.attachment_id as int, 10);
    let parameter_type = int_bits(x.type_metric + x.type_class, 14);
    let value = x.parameter_value.encoding();
    let o0 = 0int;
    let o1 = o0 + change_indicator.len();
    let o2 = o1 + attachment_id.len();
    let o3 = o2 + parameter_type.len();
    assert(e.subrange(o0, o0 + change_indicator.len()) =~= change_indicator);
    lemma_written_part(bits, cursor, e, o0, change_indicator);
    assert(e.subrange(o1, o1 + attachment_id.len()) =~= attachment_id);
    lemma_written_part(bits, cursor, e, o1, attachment_id);
    assert(e.subrange(o2, o2 + parameter_type.len()) =~= parameter_type);
    lemma_written_part(bits, cursor, e, o2, parameter_type);
    assert(e.subrange(o3, o3 + value.len()) =~= value);
    lemma_written_part(bits, cursor, e, o3, value);
}

/// Where an attached part is written, the detached indicator (1 bit), the
/// attachment id (10 bits), the parameter type (11 bits) and the attached part
/// type stand in that order.
pub proof fn lemma_attached_part_layout(x: CdisAttachedPartVP, bits: Seq<bool>, cursor: int)
    requires
        0 <= cursor,
        cursor + x.encoding().len() <= bits.len(),
    ensures
        ({
            let w = splice(bits, cursor, x.encoding());
            let detached = int_bits(x.detached_indicator as int, 1);
            let attachment_id = int_bits(x.attachment_id as int, 10);
            let parameter_type = int_bits(x.parameter_type as int, 11);
            let part_type = x.attached_part_type.encoding();
            let o0 = cursor;
            let o1 = o0 + detached.len();
            let o2 = o1 + attachment_id.len();
            let o3 = o2 + parameter_type.len();
            &&& x.encoding().len() == detached.len() + attachment_id.len() + parameter_type.len() + part_type.len()
            &&& written_at(w, o0, detached)
            &&& written_at(w, o1, attachment_id)
            &&& written_at(w, o2, parameter_type)
            &&& written_at(w, o3, part_type)
        }),
{
    let e = x.encoding();
    let w = splice(bits, cursor, e);
    let detached = int_bits(x.detached_indicator as int, 1);
    let attachment_id = int_bits(x.attachment_id as int, 10);
    let parameter_type = int_bits(x.parameter_type as int, 11);
    let part_type = x.attached_part_type.encoding();
    let o0 = 0int;
    let o1 = o0 + detached.len();
    let o2 = o1 + attachment_id.len();
    let o3 = o2 + parameter_type.len();
    assert(e.subrange(o0, o0 + detached.len()) =~= detached);
    lemma_written_part(bits, cursor, e, o0, detached);
    assert(e.subrange(o1, o1 + attachment_id.len()) =~= attachment_id);
    lemma_written_part(bits, cursor, e, o1, attachment_id);
    assert(e.subrange(o2, o2 + parameter_type.len()) =~= parameter_type);
    lemma_written_part(bits, cursor, e, o2, parameter_type);
    assert(e.subrange(o3, o3 + part_type.len()) =~= part_type);
    lemma_written_part(bits, cursor, e, o3, part_type);
}

/// Where an entity separation is written, the reason (3 bits), the pre-entity
/// indicator (3 bits), the parent entity id, the station name (6 bits) and the
/// station number (12 bits) stand in that order.
pub proof fn lemma_entity_separation_layout(x: CdisEntitySeparationVP, bits: Seq<bool>, cursor: int)
    requires
        0 <= cursor,
        cursor + x.encoding().len() <= bits.len(),
    ensures
        ({
            let w = splice(bits, cursor, x.encoding());
            let reason = int_bits(x.reason_for_separation as int, 3);
            let pre_entity = int_bits(x.pre_entity_indicator as int, 3);
            let parent = x.parent_entity_id.encoding();
            let station_name = int_bits(x.station_name as int, 6);
            let station_number = int_bits(x.station_number as int, 12);
            let o0 = cursor;
            let o1 = o0 + reason.len();
            let o2 = o1 + pre_entity.len();
            let o3 = o2 + parent.len();
            let o4 = o3 + station_name.len();
            &&& x.encoding().len() == reason.len() + pre_entity.len() + parent.len() + station_name.len() + station_number.len()
            &&& written_at(w, o0, reason)
            &&& written_at(w, o1, pre_entity)
            &&& written_at(w, o2, parent)
            &&& written_at(w, o3, station_name)
            &&& written_at(w, o4, station_number)
        }),
{
    let e = x.encoding();
    let w = splice(bits, cursor, e);
    let reason = int_bits(x.reason_for_separation as int, 3);
    let pre_entity = int_bits(x.pre_entity_indicator as int, 3);
    let parent = x.parent_entity_id.encoding();
    let station_name = int_bits(x.station_name as int, 6);
    let station_number = int_bits(x.station_number as int, 12);
    let o0 = 0int;
    let o1 = o0 + reason.len();
    let o2 = o1 + pre_entity.len();
    let o3 = o2 + parent.len();
    let o4 = o3 + station_name.len();
    assert(e.subrange(o0, o0 + reason.len()) =~= reason);
    lemma_written_part(bits, cursor, e, o0, reason);
    assert(e.subrange(o1, o1 + pre_entity.len()) =~= pre_entity);
    lemma_written_part(bits, cursor, e, o1, pre_entity);
    assert(e.subrange(o2, o2 + parent.len()) =~= parent);
    lemma_written_part(bits, cursor, e, o2, parent);
    assert(e.subrange(o3, o3 + station_name.len()) =~= station_name);
    lemma_written_part(bits, cursor, e, o3, station_name);
    assert(e.subrange(o4, o4 + station_number.len()) =~= station_number);
    lemma_written_part(bits, cursor, e, o4, station_number);
}

/// Where an entity type parameter is written, the change indicator (1 bit) and
/// the entity type stand in that order.
pub proof fn lemma_entity_type_parameter_layout(x: CdisEntityTypeVP, bits: Seq<bool>, cursor: int)
    requires
        0 <= cursor,
        cursor + x.encoding().len() <= bits.len(),
    ensures
        ({
            let w = splice(bits, cursor, x.encoding());
            let change_indicator = int_bits(x.change_indicator as int, 1);
            let part_type = x.attached_part_type.encoding();
            let o0 = cursor;
            let o1 = o0 + change_indicator.len();
            &&& x.encoding().len() == change_indicator.len() + part_type.len()
            &&& written_at(w, o0, change_indicator)
            &&& written_at(w, o1, part_type)
        }),
{
    let e = x.encoding();
    let w = splice(bits, cursor, e);
    let change_indicator = int_bits(x.change_indicator as int, 1);
    let part_type = x.attached_part_type.encoding();
    let o0 = 0int;
    let o1 = o0 + change_indicator.len();
    assert(e.subrange(o0, o0 + change_indicator.len()) =~= change_indicator);
    lemma_written_part(bits, cursor, e, o0, change_indicator);
    assert(e.subrange(o1, o1 + part_type.len()) =~= part_type);
    lemma_written_part(bits, cursor, e, o1, part_type);
}

/// Where an entity association is written, its fields stand in this order:
/// change indicator (1 bit), association status (4 bits), association type
/// (8 bits), entity id, own station location (6 bits), physical connection
/// type (5 bits), group member type (4 bits), group number (16 bits).
pub proof fn lemma_entity_association_layout(x: CdisEntityAssociationVP, bits: Seq<bool>, cursor: int)
    requires
        0 <= cursor,
        cursor + x.encoding().len() <= bits.len(),
    ensures
        ({
            let w = splice(bits, cursor, x.encoding());
            let change_indicator = int_bits(x.change_indicator as int, 1);
            let status = int_bits(x.association_status as int, 4);
            let association_type = int_bits(x.association_type as int, 8);
            let entity_id = x.entity_id.encoding();
            let own_station = int_bits(x.own_station_location as int, 6);
            let connection = int_bits(x.physical_connection_type as int, 5);
            let member_type = int_bits(x.group_member_type as int, 4);
            let group_number = int_bits(x.group_number as int, 16);
            let o0 = cursor;
            let o1 = o0 + change_indicator.len();
            let o2 = o1 + status.len();
            let o3 = o2 + association_type.len();
            let o4 = o3 + entity_id.len();
            let o5 = o4 + own_station.len();
            let o6 = o5 + connection.len();
            let o7 = o6 + member_type.len();
            &&& x.encoding().len() == change_indicator.len() + status.len() + association_type.len() + entity_id.len() + own_station.len() + connection.len() + member_type.len() + group_number.len()
            &&& written_at(w, o0, change_indicator)
            &&& written_at(w, o1, status)
            &&& written_at(w, o2, association_type)
            &&& written_at(w, o3, entity_id)
            &&& written_at(w, o4, own_station)
            &&& written_at(w, o5, connection)
            &&& written_at(w, o6, member_type)
            &&& written_at(w, o7, group_number)
        }),
{
    let e = x.encoding();
    let w = splice(bits, cursor, e);
    let change_indicator = int_bits(x.change_indicator as int, 1);
    let status = int_bits(x.association_status as int, 4);
    let association_type = int_bits(x.association_type as int, 8);
    let entity_id = x.entity_id.encoding();
    let own_station = int_bits(x.own_station_location as int, 6);
    let connection = int_bits(x.physical_connection_type as int, 5);
    let member_type = int_bits(x.group_member_type as int, 4);
    let group_number = int_bits(x.group_number as int, 16);
    let o0 = 0int;
    let o1 = o0 + change_indicator.len();
    let o2 = o1 + status.len();
    let o3 = o2 + association_type.len();
    let o4 = o3 + entity_id.len();
    let o5 = o4 + own_station.len();
    let o6 = o5 + connection.len();
    let o7 = o6 + member_type.len();
    assert(e.subrange(o0, o0 + change_indicator.len()) =~= change_indicator);
    lemma_written_part(bits, cursor, e, o0, change_indicator);
    assert(e.subrange(o1, o1 + status.len()) =~= status);
    lemma_written_part(bits, cursor, e, o1, status);
    assert(e.subrange(o2, o2 + association_type.len()) =~= association_type);
    lemma_written_part(bits, cursor, e, o2, association_type);
    assert(e.subrange(o3, o3 + entity_id.len()) =~= entity_id);
    lemma_written_part(bits, cursor, e, o3, entity_id);
    assert(e.subrange(o4, o4 + own_station.len()) =~= own_station);
    lemma_written_part(bits, cursor, e, o4, own_station);
    assert(e.subrange(o5, o5 + connection.len()) =~= connection);
    lemma_written_part(bits, cursor, e, o5, connection);
    assert(e.subrange(o6, o6 + member_type.len()) =~= member_type);
    lemma_written_part(bits, cursor, e, o6, member_type);
    assert(e.subrange(o7, o7 + group_number.len()) =~= group_number);
    lemma_written_part(bits, cursor, e, o7, group_number);
}

/// Where a fixed datum is written, the datum id and the datum value stand in
/// that order, 32 bits each.
pub proof fn lemma_fixed_datum_layout(x: FixedDatum, bits: Seq<bool>, cursor: int)
    requires
        0 <= cursor,
        cursor + x.encoding().len() <= bits.len(),
    ensures
        ({
            let w = splice(bits, cursor, x.encoding());
            let datum_id = int_bits(x.datum_id as int, 32);
            let datum_value = int_bits(x.datum_value as int, 32);
            let o0 = cursor;
            let o1 = o0 + datum_id.len();
            &&& x.encoding().len() == datum_id.len() + datum_value.len()
            &&& written_at(w, o0, datum_id)
            &&& written_at(w, o1, datum_value)
        }),
{
    let e = x.encoding();
    let w = splice(bits, cursor, e);
    let datum_id = int_bits(x.datum_id as int, 32);
    let datum_value = int_bits(x.datum_value as int, 32);
    let o0 = 0int;
    let o1 = o0 + datum_id.len();
    assert(e.subrange(o0, o0 + datum_id.len()) =~= datum_id);
    lemma_written_part(bits, cursor, e, o0, datum_id);
    assert(e.subrange(o1, o1 + datum_value.len()) =~= datum_value);
    lemma_written_part(bits, cursor, e, o1, datum_value);
}

/// Where a variable datum is written, the datum id (32 bits), the length in
/// bits (14 bits: eight per octet, or 16383 where that does not fit in 16
/// bits) and the octets stand in that order.
pub proof fn lemma_variable_datum_layout(x: VariableDatum, bits: Seq<bool>, cursor: int)
    requires
        0 <= cursor,
        cursor + x.encoding().len() <= bits.len(),
    ensures
        ({
            let w = splice(bits, cursor, x.encoding());
            let datum_id = int_bits(x.datum_id as int, 32);
            let length = int_bits(if x.datum_value.len() * 8 <= 0xFFFF { x.datum_value.len() * 8 } else { 16383 }, 14);
            let octets = seq_encoding(x.datum_value@);
            let o0 = cursor;
            let o1 = o0 + datum_id.len();
            let o2 = o1 + length.len();
            &&& x.encoding().len() == datum_id.len() + length.len() + octets.len()
            &&& written_at(w, o0, datum_id)
            &&& written_at(w, o1, length)
            &&& written_at(w, o2, octets)
        }),
{
    let e = x.encoding();
    let w = splice(bits, cursor, e);
    let datum_id = int_bits(x.datum_id as int, 32);
    let length = int_bits(if x.datum_value.len() * 8 <= 0xFFFF { x.datum_value.len() * 8 } else { 16383 }, 14);
    let octets = seq_encoding(x.datum_value@);
    let o0 = 0int;
    let o1 = o0 + datum_id.len();
    let o2 = o1 + length.len();
    assert(e.subrange(o0, o0 + datum_id.len()) =~= datum_id);
    lemma_written_part(bits, cursor, e, o0, datum_id);
    assert(e.subrange(o1, o1 + length.len()) =~= length);
    lemma_written_part(bits, cursor, e, o1, length);
    assert(e.subrange(o2, o2 + octets.len()) =~= octets);
    lemma_written_part(bits, cursor, e, o2, octets);
}

/// Where an encoding scheme is written, the encoding class (2 bits) comes
/// first, then, as a UVINT8, the encoding type (its low octet for encoded
/// audio), the number of messages for raw binary data, or the encoding type
/// for an unspecified scheme.
pub proof fn lemma_encoding_scheme_layout(x: EncodingScheme, bits: Seq<bool>, cursor: int)
    requires
        0 <= cursor,
        cursor + x.encoding().len() <= bits.len(),
    ensures
        ({
            let w = splice(bits, cursor, x.encoding());
            let class = int_bits(match x { EncodingScheme::EncodedAudio { encoding_class, .. } => encoding_class, EncodingScheme::RawBinaryData { encoding_class, .. } => encoding_class, EncodingScheme::Unspecified { encoding_class, .. } => encoding_class } as int, 2);
            let encoding_type = uvint8_of(match x { EncodingScheme::EncodedAudio { encoding_type, .. } => encoding_type as u8, EncodingScheme::RawBinaryData { nr_of_messages, .. } => nr_of_messages, EncodingScheme::Unspecified { encoding_type, .. } => encoding_type }).encoding();
            let o0 = cursor;
            let o1 = o0 + class.len();
            &&& x.encoding().len() == class.len() + encoding_type.len()
            &&& written_at(w, o0, class)
            &&& written_at(w, o1, encoding_type)
        }),
{
    let e = x.encoding();
    let w = splice(bits, cursor, e);
    let class = int_bits(match x { EncodingScheme::EncodedAudio { encoding_class, .. } => encoding_class, EncodingScheme::RawBinaryData { encoding_class, .. } => encoding_class, EncodingScheme::Unspecified { encoding_class, .. } => encoding_class } as int, 2);
    let encoding_type = uvint8_of(match x { EncodingScheme::EncodedAudio { encoding_type, .. } => encoding_type as u8, EncodingScheme::RawBinaryData { nr_of_messages, .. } => nr_of_messages, EncodingScheme::Unspecified { encoding_type, .. } => encoding_type }).encoding();
    let o0 = 0int;
    let o1 = o0 + class.len();
    assert(e.subrange(o0, o0 + class.len()) =~= class);
    lemma_written_part(bits, cursor, e, o0, class);
    assert(e.subrange(o1, o1 + encoding_type.len()) =~= encoding_type);
    lemma_written_part(bits, cursor, e, o1, encoding_type);
}

/// Where beam data is written, the azimuth center stands four times over, then
/// the sweep sync (10 bits).
pub proof fn lemma_beam_data_layout(x: BeamData, bits: Seq<bool>, cursor: int)
    requires
        0 <= cursor,
        cursor + x.encoding().len() <= bits.len(),
    ensures
        ({
            let w = splice(bits, cursor, x.encoding());
            let first = x.az_center.encoding();
            let second = x.az_center.encoding();
            let third = x.az_center.encoding();
            let fourth = x.az_center.encoding();
            let sweep_sync = int_bits(x.sweep_sync as int, 10);
            let o0 = cursor;
            let o1 = o0 + first.len();
            let o2 = o1 + second.len();
            let o3 = o2 + third.len();
            let o4 = o3 + fourth.len();
            &&& x.encoding().len() == first.len() + second.len() + third.len() + fourth.len() + sweep_sync.len()
            &&& written_at(w, o0, first)
            &&& written_at(w, o1, second)
            &&& written_at(w, o2, third)
            &&& written_at(w, o3, fourth)
            &&& written_at(w, o4, sweep_sync)
        }),
{
    let e = x.encoding();
    let w = splice(bits, cursor, e);
    let first = x.az_center.encoding();
    let second = x.az_center.encoding();
    let third = x.az_center.encoding();
    let fourth = x.az_center.encoding();
    let sweep_sync = int_bits(x.sweep_sync as int, 10);
    let o0 = 0int;
    let o1 = o0 + first.len();
    let o2 = o1 + second.len();
    let o3 = o2 + third.len();
    let o4 = o3 + fourth.len();
    assert(e.subrange(o0, o0 + first.len()) =~= first);
    lemma_written_part(bits, cursor, e, o0, first);
    assert(e.subrange(o1, o1 + second.len()) =~= second);
    lemma_written_part(bits, cursor, e, o1, second);
    assert(e.subrange(o2, o2 + third.len()) =~= third);
    lemma_written_part(bits, cursor, e, o2, third);
    assert(e.subrange(o3, o3 + fourth.len()) =~= fourth);
    lemma_written_part(bits, cursor, e, o3, fourth);
    assert(e.subrange(o4, o4 + sweep_sync.len()) =~= sweep_sync);
    lemma_written_part(bits, cursor, e, o4, sweep_sync);
}

} // verus!
