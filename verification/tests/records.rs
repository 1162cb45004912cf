use cdis_assemble::records::model::{
    AngularVelocity, CdisEntityAssociationVP, CdisEntitySeparationVP, CdisEntityTypeVP,
    EncodingScheme, EntityCoordinateVector, LinearAcceleration, LinearVelocity, Orientation,
    WorldCoordinates,
    BeamData, CdisArticulatedPartVP, CdisAttachedPartVP, EntityType, CdisEntityMarking, CdisHeader, CdisMarkingCharEncoding,
    CdisVariableParameter, EntityId, FixedDatum, LayerHeader, PduStatus, VariableDatum,
};
use cdis_assemble::types::{CdisFloat, CdisTimestamp, VarInt, VarIntKind};
use cdis_assemble::writing::{create_bit_buffer, BitBuffer, SerializeCdis};

const FOUR_BYTES: usize = 4;

#[test]
fn serialize_marking_five_bit_encoding() {
    let mut buf: BitBuffer = create_bit_buffer();

    // "ABCDE" in the five-bit character set
    let input = CdisEntityMarking { marking: vec![1, 2, 3, 4, 5], char_encoding: CdisMarkingCharEncoding::FiveBit };
    let expected: [u8; FOUR_BYTES] = [0b0101_0000, 0b0100_0100, 0b0011_0010, 0b0001_0100];
    let _next_cursor = input.serialize(&mut buf, 0);

    assert_eq!(expected[..FOUR_BYTES], buf.as_raw_slice()[..FOUR_BYTES]);
}

#[test]
fn serialize_marking_six_bit_encoding() {
    let mut buf: BitBuffer = create_bit_buffer();

    // "AAJJ" in the six-bit character set
    let input = CdisEntityMarking { marking: vec![1, 1, 10, 10], char_encoding: CdisMarkingCharEncoding::SixBit };
    let expected: [u8; FOUR_BYTES] = [0b0100_1000, 0b0010_0000, 0b1001_0100, 0b0101_0000];
    let _next_cursor = input.serialize(&mut buf, 0);

    assert_eq!(expected[..FOUR_BYTES], buf.as_raw_slice()[..FOUR_BYTES]);
}

fn entity_state_header(status: PduStatus) -> CdisHeader {
    CdisHeader {
        protocol_version: 1,
        exercise_id: VarInt::uvint8(7),
        pdu_type: 1,
        timestamp: CdisTimestamp::default(),
        length: 0,
        pdu_status: status,
    }
}

#[test]
fn serialize_cdis_header() {
    let mut buf: BitBuffer = create_bit_buffer();

    let header = entity_state_header(PduStatus::default());

    let expected: [u8; 8] = [
        0b0100_1110,
        0b0000_0010,
        0b0000_0000,
        0b0000_0000,
        0b0000_0000,
        0b0000_0000,
        0b0000_0000,
        0b0000_0000,
    ];
    let next_cursor = header.serialize(&mut buf, 0);

    assert_eq!(next_cursor, header.record_length());
    assert_eq!(buf.as_raw_slice()[..8], expected);
}

#[test]
fn header_record_length() {
    let header = entity_state_header(PduStatus::default());
    assert_eq!(header.record_length(), 2 + 5 + 8 + 26 + 14 + 8);
}

#[test]
fn header_pdu_status_octet() {
    let mut buf = create_bit_buffer();
    let mut status = PduStatus::default();
    status.lvc_indicator = Some(1);
    status.transferred_entity_indicator = Some(1);
    let header = entity_state_header(status);
    let cursor = header.serialize(&mut buf, 0);
    assert_eq!(cursor, 63);
    // The status octet stands in bits 55..63: 0000_0011 for an Entity State PDU.
    let bytes = buf.as_raw_slice();
    assert_eq!(bytes[6] & 0x01, 0x00);
    assert_eq!(bytes[7], 0b0000_0110);
}

#[test]
fn uvint8_uses_four_bits_below_sixteen() {
    let small = VarInt::uvint8(15);
    assert_eq!(small.size_index, 0);
    assert_eq!(small.record_length(), 5);
    let large = VarInt::uvint8(16);
    assert_eq!(large.size_index, 1);
    assert_eq!(large.record_length(), 9);
    let mut buf = create_bit_buffer();
    let cursor = large.serialize(&mut buf, 0);
    assert_eq!(cursor, 9);
    assert_eq!(buf.as_raw_slice()[0..2], [0b1000_1000, 0b0000_0000]);
}

#[test]
fn entity_id_writes_three_uvint16() {
    let id = EntityId {
        site: VarInt::new(VarIntKind::Uvint16, 0, 1),
        application: VarInt::new(VarIntKind::Uvint16, 0, 2),
        entity: VarInt::new(VarIntKind::Uvint16, 1, 0x7FF),
    };
    let mut buf = create_bit_buffer();
    let cursor = id.serialize(&mut buf, 0);
    assert_eq!(cursor, 10 + 10 + 13);
    // 00 00000001 00 00000010 01 11111111111
    assert_eq!(buf.as_raw_slice()[0..5], [0b0000_0000, 0b0100_0000, 0b0010_0111, 0b1111_1111, 0b1000_0000]);
}

#[test]
fn unspecified_variable_parameter_is_the_flag_alone() {
    let mut buf = create_bit_buffer();
    let cursor = CdisVariableParameter::Unspecified.serialize(&mut buf, 0);
    assert_eq!(cursor, 1);
    assert_eq!(buf.as_raw_slice()[0], 0x80);
}

#[test]
fn articulated_part_variable_parameter() {
    let vp = CdisVariableParameter::ArticulatedPart(CdisArticulatedPartVP {
        change_indicator: 0xAB,
        attachment_id: 1,
        type_metric: 1,
        type_class: 4096,
        parameter_value: CdisFloat { mantissa: 1, mantissa_bits: 4, exponent: -1, exponent_bits: 4 },
    });
    let mut buf = create_bit_buffer();
    let cursor = vp.serialize(&mut buf, 0);
    assert_eq!(cursor, 1 + 3 + 8 + 10 + 14 + 8);
    // 1 000 10101011 0000000001 01000000000001 0001 1111
    assert_eq!(
        buf.as_raw_slice()[0..6],
        [0b1000_1010, 0b1011_0000, 0b0000_0101, 0b0000_0000, 0b0001_0001, 0b1111_0000]
    );
}

#[test]
fn attached_part_record_type_code() {
    let u8z = VarInt::uvint8(0);
    let vp = CdisVariableParameter::AttachedPart(CdisAttachedPartVP {
        detached_indicator: 1,
        attachment_id: 0,
        parameter_type: 0,
        attached_part_type: EntityType {
            kind: 0, domain: 0, country: 0, category: u8z, subcategory: u8z, specific: u8z, extra: u8z,
        },
    });
    let mut buf = create_bit_buffer();
    let cursor = vp.serialize(&mut buf, 0);
    assert_eq!(cursor, 1 + 3 + 1 + 10 + 11 + 17 + 20);
    // flag 1, record type 001, detached 1
    assert_eq!(buf.as_raw_slice()[0] & 0xF8, 0b1001_1000);
}

#[test]
fn fixed_datum() {
    let mut buf = create_bit_buffer();
    let cursor = FixedDatum { datum_id: 0x0102_0304, datum_value: 0xA0B0_C0D0 }.serialize(&mut buf, 0);
    assert_eq!(cursor, 64);
    assert_eq!(buf.as_raw_slice()[0..8], [1, 2, 3, 4, 0xA0, 0xB0, 0xC0, 0xD0]);
}

#[test]
fn variable_datum_length_in_bits() {
    let mut buf = create_bit_buffer();
    let datum = VariableDatum { datum_id: 0, datum_value: vec![0xFF, 0x01] };
    let cursor = datum.serialize(&mut buf, 0);
    assert_eq!(cursor, 32 + 14 + 16);
    // length 16 in 14 bits: 00000000010000, then 11111111 00000001
    let bytes = buf.as_raw_slice();
    assert_eq!(bytes[4..8], [0b0000_0000, 0b0100_0011, 0b1111_1100, 0b0000_0100]);
}

#[test]
fn variable_datum_too_long_for_sixteen_bits() {
    let mut buf = create_bit_buffer();
    let datum = VariableDatum { datum_id: 0, datum_value: vec![0u8; 8192] };
    let cursor = datum.serialize(&mut buf, 0);
    assert_eq!(cursor, 32 + 14 + 8192 * 8);
    // the length field holds 16383: fourteen set bits
    let bytes = buf.as_raw_slice();
    assert_eq!(bytes[4..6], [0xFF, 0xFC]);
}

#[test]
fn beam_data_writes_azimuth_center_four_times() {
    let centre = VarInt::new(VarIntKind::Svint13, 0, -1);
    let other = VarInt::new(VarIntKind::Svint13, 0, 3);
    let data = BeamData { az_center: centre, az_sweep: other, el_center: other, el_sweep: other, sweep_sync: 0 };
    let mut buf = create_bit_buffer();
    let cursor = data.serialize(&mut buf, 0);
    assert_eq!(cursor, 4 * 7 + 10);
    // each: 00 11111
    assert_eq!(buf.as_raw_slice()[0..4], [0b0011_1110, 0b0111_1100, 0b1111_1001, 0b1111_0000]);
}

#[test]
fn layer_header_with_length() {
    let header = LayerHeader { layer_number: 1, layer_specific_information: 2 };
    assert_eq!(header.record_length(), 26);
    let mut buf = create_bit_buffer();
    let cursor = header.serialize_with_length(100, &mut buf, 0);
    assert_eq!(cursor, 26);
    // 0001 00000010 00000001111110 (126)
    assert_eq!(buf.as_raw_slice()[0..4], [0b0001_0000, 0b0010_0000, 0b0001_1111, 0b1000_0000]);
}

#[test]
fn angular_velocity_and_friends() {
    let a = VarInt::new(VarIntKind::Svint12, 0, -1);
    let b = VarInt::new(VarIntKind::Svint12, 0, 1);
    let mut buf = create_bit_buffer();
    let cursor = AngularVelocity { x: a, y: b, z: a }.serialize(&mut buf, 0);
    // 00 111 | 00 001 | 00 111
    assert_eq!(cursor, 15);
    assert_eq!(buf.as_raw_slice()[0..2], [0b0011_1000, 0b0100_1110]);

    let v = VarInt::new(VarIntKind::Svint16, 3, -2);
    let cursor = LinearVelocity { x: v, y: v, z: v }.serialize(&mut buf, 0);
    assert_eq!(cursor, 54);
    assert_eq!(buf.as_raw_slice()[0..3], [0b1111_1111, 0b1111_1111, 0b1011_1111]);
    let cursor = EntityCoordinateVector { x: v, y: v, z: v }.serialize(&mut buf, 2);
    assert_eq!(cursor, 56);
    let w = VarInt::new(VarIntKind::Svint14, 1, 5);
    let cursor = LinearAcceleration { x: w, y: w, z: w }.serialize(&mut buf, 0);
    assert_eq!(cursor, 27);
}

#[test]
fn world_coordinates_and_orientation() {
    let mut buf = create_bit_buffer();
    let location = WorldCoordinates {
        latitude: -1,
        longitude: 0x1234_5678,
        altitude_msl: VarInt::new(VarIntKind::Svint24, 0, 0),
    };
    let cursor = location.serialize(&mut buf, 0);
    assert_eq!(cursor, 31 + 32 + 18);
    let bytes = buf.as_raw_slice();
    assert_eq!(bytes[0..4], [0xFF, 0xFF, 0xFF, 0xFE]);
    assert_eq!(bytes[4..8], [0x24, 0x68, 0xAC, 0xF0]);
    let mut buf = create_bit_buffer();
    let cursor = Orientation { psi: -4096, theta: 4095, phi: 0 }.serialize(&mut buf, 0);
    assert_eq!(cursor, 39);
    // 1000000000000 0111111111111 0000000000000
    assert_eq!(buf.as_raw_slice()[0..4], [0b1000_0000, 0b0000_0011, 0b1111_1111, 0b1100_0000]);
}

#[test]
fn entity_type_layout() {
    let mut buf = create_bit_buffer();
    let entity_type = EntityType {
        kind: 1,
        domain: 2,
        country: 225,
        category: VarInt::uvint8(1),
        subcategory: VarInt::uvint8(200),
        specific: VarInt::uvint8(0),
        extra: VarInt::uvint8(0),
    };
    let cursor = entity_type.serialize(&mut buf, 0);
    assert_eq!(cursor, 4 + 4 + 9 + 5 + 9 + 5 + 5);
    // 0001 0010 011100001 00001 111001000 ...
    assert_eq!(buf.as_raw_slice()[0..4], [0b0001_0010, 0b0111_0000, 0b1000_0111, 0b1001_0000]);
}

#[test]
fn entity_separation_association_and_type_parameters() {
    let z16 = VarInt::new(VarIntKind::Uvint16, 0, 0);
    let id = EntityId { site: z16, application: z16, entity: z16 };
    let mut buf = create_bit_buffer();
    let separation = CdisVariableParameter::EntitySeparation(CdisEntitySeparationVP {
        reason_for_separation: 7,
        pre_entity_indicator: 0,
        parent_entity_id: id,
        station_name: 1,
        station_number: 2,
    });
    assert_eq!(separation.serialize(&mut buf, 0), 4 + 3 + 3 + 30 + 6 + 12);
    // 1 010 111 000
    assert_eq!(buf.as_raw_slice()[0..2], [0b1010_1110, 0b0000_0000]);

    let u8z = VarInt::uvint8(0);
    let entity_type = EntityType { kind: 0, domain: 0, country: 0, category: u8z, subcategory: u8z, specific: u8z, extra: u8z };
    let type_vp = CdisVariableParameter::EntityType(CdisEntityTypeVP { change_indicator: 1, attached_part_type: entity_type });
    let mut buf = create_bit_buffer();
    assert_eq!(type_vp.serialize(&mut buf, 0), 4 + 1 + 37);
    // 1 011 1
    assert_eq!(buf.as_raw_slice()[0] & 0xF8, 0b1011_1000);

    let association = CdisVariableParameter::EntityAssociation(CdisEntityAssociationVP {
        change_indicator: 0,
        association_status: 15,
        association_type: 0,
        entity_id: id,
        own_station_location: 0,
        physical_connection_type: 0,
        group_member_type: 0,
        group_number: 0xFFFF,
    });
    let mut buf = create_bit_buffer();
    assert_eq!(association.serialize(&mut buf, 0), 4 + 1 + 4 + 8 + 30 + 6 + 5 + 4 + 16);
    // 1 100 0 1111
    assert_eq!(buf.as_raw_slice()[0..2], [0b1100_0111, 0b1000_0000]);
}

#[test]
fn encoding_schemes() {
    let mut buf = create_bit_buffer();
    let raw = EncodingScheme::RawBinaryData { encoding_class: 1, nr_of_messages: 20 };
    assert_eq!(raw.serialize(&mut buf, 0), 2 + 9);
    // 01 1 00010100
    assert_eq!(buf.as_raw_slice()[0..2], [0b0110_0010, 0b1000_0000]);
    let mut buf = create_bit_buffer();
    let other = EncodingScheme::Unspecified { encoding_class: 3, encoding_type: 2 };
    assert_eq!(other.serialize(&mut buf, 0), 2 + 5);
    // 11 0 0010
    assert_eq!(buf.as_raw_slice()[0], 0b1100_0100);
}

#[test]
fn float_and_timestamp() {
    let mut buf = create_bit_buffer();
    let value = CdisFloat { mantissa: -3, mantissa_bits: 6, exponent: 2, exponent_bits: 3 };
    assert_eq!(value.serialize(&mut buf, 0), 9);
    // 111101 010
    assert_eq!(buf.as_raw_slice()[0..2], [0b1111_0101, 0b0000_0000]);
    let mut buf = create_bit_buffer();
    assert_eq!(CdisTimestamp { value: 0x3FF_FFFF }.serialize(&mut buf, 0), 26);
    assert_eq!(buf.as_raw_slice()[0..4], [0xFF, 0xFF, 0xFF, 0xC0]);
}

#[test]
fn header_with_given_status_octet() {
    let mut buf = create_bit_buffer();
    let header = entity_state_header(PduStatus::default());
    let cursor = header.serialize_with_status(0xA5, &mut buf, 0);
    assert_eq!(cursor, 63);
    let bytes = buf.as_raw_slice();
    // the octet stands in bits 55..63
    assert_eq!(bytes[6] & 0x01, 0x01);
    assert_eq!(bytes[7], 0x4A);
}

fn status_octet_written(status: PduStatus, pdu_type: u8) -> u8 {
    let mut buf = create_bit_buffer();
    let mut header = entity_state_header(status);
    header.pdu_type = pdu_type;
    let cursor = header.serialize(&mut buf, 0);
    assert_eq!(cursor, 63);
    let bytes = buf.as_raw_slice();
    ((bytes[6] & 0x01) << 7) | (bytes[7] >> 1)
}

#[test]
fn pdu_status_octet_depends_on_pdu_type() {
    let status = PduStatus {
        transferred_entity_indicator: Some(1),
        lvc_indicator: Some(2),
        coupled_extension_indicator: Some(1),
        fire_type_indicator: Some(1),
        detonation_type_indicator: Some(2),
        radio_attached_indicator: Some(1),
        intercom_attached_indicator: Some(2),
        iff_simulation_mode: Some(1),
        active_interrogation_indicator: Some(1),
    };
    // Entity State: CEI, LVC, TEI
    assert_eq!(status_octet_written(status, 1), 0b0000_1101);
    // Fire: FTI, CEI, LVC
    assert_eq!(status_octet_written(status, 2), 0b0001_1100);
    // Detonation: DTI, CEI, LVC
    assert_eq!(status_octet_written(status, 3), 0b0010_1100);
    // Collision: CEI, LVC
    assert_eq!(status_octet_written(status, 4), 0b0000_1100);
    // Transmitter: RAI, CEI, LVC, TEI
    assert_eq!(status_octet_written(status, 25), 0b0001_1101);
    // IFF: AII, ISM, CEI, LVC, TEI
    assert_eq!(status_octet_written(status, 28), 0b0011_1101);
    // Intercom Signal: IAI, CEI, LVC, TEI
    assert_eq!(status_octet_written(status, 31), 0b0010_1101);
    // type 72: LVC alone
    assert_eq!(status_octet_written(status, 72), 0b0000_0100);
    // other types: nothing
    assert_eq!(status_octet_written(status, 0), 0);
    assert_eq!(status_octet_written(status, 200), 0);
}

#[test]
fn body_length_moves_only_the_layer_length_field() {
    let header = LayerHeader { layer_number: 9, layer_specific_information: 0x5A };
    let mut buf1 = create_bit_buffer();
    let mut buf2 = create_bit_buffer();
    assert_eq!(header.serialize_with_length(10, &mut buf1, 3), 29);
    assert_eq!(header.serialize_with_length(1000, &mut buf2, 3), 29);
    let read_length = |bytes: &[u8]| -> u32 {
        let word = u32::from_be_bytes([bytes[0], bytes[1], bytes[2], bytes[3]]);
        (word >> (32 - 29)) & 0x3FFF
    };
    assert_eq!(read_length(buf1.as_raw_slice()), 36);
    assert_eq!(read_length(buf2.as_raw_slice()), 1026);
    assert_eq!(buf1.as_raw_slice()[0..1], buf2.as_raw_slice()[0..1]);
    assert_eq!(buf1.as_raw_slice()[1] & 0xFE, buf2.as_raw_slice()[1] & 0xFE);
}
