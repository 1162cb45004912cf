use cdis_assemble::acknowledge::model::Acknowledge;
use cdis_assemble::designator::model::{Designator, DesignatorSystemName, DesignatorUnits};
use cdis_assemble::electromagnetic_emission::model::{
    ElectromagneticEmission, EmitterBeam, EmitterSystem, SiteAppPair, TrackJam,
};
use cdis_assemble::parsing::{entity_identification, take_bits, take_signed, uvint16};
use cdis_assemble::receiver::model::Receiver;
use cdis_assemble::receiver::parser::receiver_body;
use cdis_assemble::records::model::{CdisHeader, EncodingScheme, EntityId, PduStatus};
use cdis_assemble::remove_entity::model::RemoveEntity;
use cdis_assemble::signal::model::Signal;
use cdis_assemble::transmitter::model::{
    BeamAntennaPattern, ModulationType, Transmitter, TransmitterUnits, VariableTransmitterParameter,
};
use cdis_assemble::types::{CdisTimestamp, VarInt, VarIntKind};
use cdis_assemble::writing::{create_bit_buffer, serialize_when_present, SerializeCdis};
use cdis_assemble::{CdisBody, CdisPdu};

fn uv16(size_index: u8, value: i64) -> VarInt {
    VarInt::new(VarIntKind::Uvint16, size_index, value)
}

fn entity_id(site: i64, application: i64, entity: i64) -> EntityId {
    EntityId { site: uv16(0, site), application: uv16(0, application), entity: uv16(0, entity) }
}

fn receiver() -> Receiver {
    Receiver {
        radio_reference_id: entity_id(1, 2, 3),
        radio_number: uv16(1, 1000),
        receiver_state: 2,
        received_power: -200,
        transmitter_radio_reference_id: EntityId {
            site: uv16(3, 65535),
            application: uv16(2, 9000),
            entity: uv16(0, 0),
        },
        transmitter_radio_number: uv16(0, 7),
    }
}

#[test]
fn receiver_reads_back_what_was_written() {
    let mut buf = create_bit_buffer();
    let cursor = receiver().serialize(&mut buf, 5);
    assert_eq!(cursor, 5 + 30 + 13 + 2 + 9 + (18 + 16 + 10) + 10);
    let parsed = receiver_body(buf.as_raw_slice(), 5);
    assert_eq!(parsed, Some((cursor, CdisBody::Receiver(receiver()))));
}

#[test]
fn receiver_body_needs_enough_input() {
    let mut buf = create_bit_buffer();
    let _ = receiver().serialize(&mut buf, 0);
    let bytes = &buf.as_raw_slice()[0..10];
    assert_eq!(receiver_body(bytes, 0), None);
}

#[test]
fn receiver_into_cdis_body() {
    assert_eq!(receiver().into_cdis_body(), CdisBody::Receiver(receiver()));
}

#[test]
fn take_bits_reads_big_endian() {
    let input = [0b1010_1100u8, 0b0101_0000];
    assert_eq!(take_bits(&input, 0, 4), Some((4, 0b1010)));
    assert_eq!(take_bits(&input, 4, 8), Some((12, 0b1100_0101)));
    assert_eq!(take_bits(&input, 12, 5), None);
    assert_eq!(take_bits(&input, 0, 16), Some((16, 0xAC50)));
}

#[test]
fn take_signed_sign_extends() {
    let input = [0b1111_1111u8, 0b1000_0000];
    assert_eq!(take_signed(&input, 0, 9), Some((9, -1)));
    assert_eq!(take_signed(&input, 1, 9), Some((10, -2)));
    assert_eq!(take_signed(&input, 8, 8), Some((16, -128)));
    assert_eq!(take_signed(&input, 9, 7), Some((16, 0)));
}

#[test]
fn uvint16_and_entity_identification_parse() {
    // 01 00000000111 (11 bits: 7)
    let input = [0b0100_0000u8, 0b0011_1000];
    assert_eq!(uvint16(&input, 0), Some((13, uvint16_value(1, 7))));
    let mut buf = create_bit_buffer();
    let id = entity_id(10, 20, 30);
    let cursor = id.serialize(&mut buf, 3);
    assert_eq!(entity_identification(buf.as_raw_slice(), 3), Some((cursor, id)));
}

fn uvint16_value(size_index: u8, value: i64) -> VarInt {
    uv16(size_index, value)
}

#[test]
fn acknowledge_body() {
    let ack = Acknowledge {
        originating_id: entity_id(0, 0, 0),
        receiving_id: entity_id(0, 0, 0),
        acknowledge_flag: 5,
        response_flag: 2,
        request_id: VarInt::new(VarIntKind::Uvint32, 0, 0xFF),
    };
    let mut buf = create_bit_buffer();
    let cursor = ack.serialize(&mut buf, 0);
    assert_eq!(cursor, 60 + 3 + 2 + 10);
    // bits 60..75: 101 10 00 11111111
    let bytes = buf.as_raw_slice();
    assert_eq!(bytes[7], 0b0000_1011);
    assert_eq!(bytes[8], 0b0001_1111);
    assert_eq!(bytes[9], 0b1110_0000);
}

#[test]
fn remove_entity_body() {
    let body = RemoveEntity {
        originating_id: entity_id(1, 1, 1),
        receiving_id: entity_id(1, 1, 1),
        request_id: VarInt::new(VarIntKind::Uvint32, 1, 1),
    };
    let mut buf = create_bit_buffer();
    assert_eq!(body.serialize(&mut buf, 0), 60 + 17);
}

#[test]
fn signal_body() {
    let signal = Signal {
        fields_present: 0b10,
        fields_present_length: 2,
        radio_reference_id: entity_id(0, 0, 0),
        radio_number: uv16(0, 0),
        encoding_scheme: EncodingScheme::EncodedAudio { encoding_class: 0, encoding_type: 0x0104 },
        tdl_type: 0,
        sample_rate: None,
        samples: Some(0xABCD),
        data: vec![0xFF],
    };
    let mut buf = create_bit_buffer();
    let cursor = signal.serialize(&mut buf, 0);
    // flags 2, ids 30, radio number 10, scheme 2 + 5 (type 4 as UVINT8), tdl 8,
    // length 14, samples 16, data 8
    assert_eq!(cursor, 2 + 30 + 10 + 7 + 8 + 14 + 16 + 8);
    let bytes = buf.as_raw_slice();
    assert_eq!(bytes[0] >> 6, 0b10);
    // data length 8 in bits 57..71, samples in 71..87, data in 87..95
    assert_eq!(bytes[7], 0b0000_0000);
    assert_eq!(bytes[8], 0b0001_0001);
    assert_eq!(bytes[9], 0b0101_0111);
    assert_eq!(bytes[10], 0b1001_1011);
    assert_eq!(bytes[11], 0b1111_1110);
}

#[test]
fn designator_body_only_writes_present_fields() {
    let designator = Designator {
        fields_present: 0b1_0000_0001,
        fields_present_length: 9,
        units: DesignatorUnits { location_wrt_entity_units: 1, world_location_altitude: 0 },
        full_update_flag: true,
        designating_entity_id: entity_id(0, 0, 0),
        code_name: Some(DesignatorSystemName { code: 0x1234 }),
        designated_entity_id: None,
        designator_code: None,
        designator_power: None,
        designator_wavelength: None,
        spot_wrt_designated_entity: None,
        designator_spot_location: None,
        dr_algorithm: Some(4),
        dr_entity_linear_acceleration: None,
    };
    let mut buf = create_bit_buffer();
    let cursor = designator.serialize(&mut buf, 0);
    assert_eq!(cursor, 9 + 3 + 30 + 16 + 4);
    let bytes = buf.as_raw_slice();
    // 100000001 1 0 1 | 30 zero bits | 0001001000110100 | 0100
    assert_eq!(bytes[0..2], [0b1000_0000, 0b1101_0000]);
    assert_eq!(bytes[5], 0b0000_0100);
    assert_eq!(bytes[6], 0b1000_1101);
    assert_eq!(bytes[7], 0b0001_0000);
}

#[test]
fn serialize_when_present_writes_nothing_for_none() {
    let mut buf = create_bit_buffer();
    let none: Option<u16> = None;
    assert_eq!(serialize_when_present(&none, &mut buf, 7), 7);
    assert_eq!(serialize_when_present(&Some(0xFFu8), &mut buf, 7), 15);
    assert_eq!(buf.as_raw_slice()[0..2], [0x01, 0xFE]);
}

#[test]
fn emitter_beam_flags() {
    let u8z = VarInt::uvint8(0);
    let beam = EmitterBeam {
        beam_id: u8z,
        beam_parameter_index: 0,
        fundamental_params_index: Some(3),
        beam_data_index: None,
        beam_function: 0,
        high_density_track_jam: false,
        beam_status: 1,
        jamming_technique_kind: Some(u8z),
        jamming_technique_category: Some(u8z),
        jamming_technique_subcategory: Some(u8z),
        jamming_technique_specific: None,
        track_jam: vec![TrackJam {
            site_app_pair_index: 0,
            entity_id: entity_id(0, 0, 0),
            emitter_number: Some(u8z),
            beam_number: Some(u8z),
        }],
    };
    let mut buf = create_bit_buffer();
    let cursor = beam.serialize(&mut buf, 0);
    // flags 4, beam id 5, index 16, fp index 5, function 5, count 4, density 1,
    // status 1, track/jam 6 + 30 + 5 + 5
    assert_eq!(cursor, 4 + 5 + 16 + 5 + 5 + 4 + 1 + 1 + 46);
    // flags: fundamental parameters yes, beam data no, jamming no (one part missing), track yes
    assert_eq!(buf.as_raw_slice()[0] >> 4, 0b1001);
}

#[test]
fn electromagnetic_emission_counts() {
    let u8z = VarInt::uvint8(0);
    let body = ElectromagneticEmission {
        full_update_flag: true,
        emitting_id: entity_id(0, 0, 0),
        event_id: entity_id(0, 0, 0),
        state_update_indicator: 1,
        fundamental_params: vec![],
        beam_data: vec![],
        site_app_pairs: vec![SiteAppPair { site: uv16(0, 1), application: uv16(0, 2) }],
        emitter_systems: vec![EmitterSystem {
            name: Some(1),
            function: None,
            number: u8z,
            location_with_respect_to_entity: None,
            emitter_beams: vec![],
        }],
    };
    let mut buf = create_bit_buffer();
    let cursor = body.serialize(&mut buf, 0);
    // 1 + 5 + 5 + 6 + 30 + 30 + 1 + 5 (one system) + 20 (pair) + (1 + 1 + 5 + 5) (system)
    assert_eq!(cursor, 1 + 5 + 5 + 6 + 60 + 1 + 5 + 20 + 12);
    // 1 00000 00000 000001
    assert_eq!(buf.as_raw_slice()[0..3], [0b1000_0000, 0b0000_0000, 0b1000_0000]);
}

#[test]
fn transmitter_body() {
    let transmitter = Transmitter {
        fields_present: 0xFF,
        units: TransmitterUnits { world_location_altitude: 0, relative_antenna_location: 1 },
        full_update_flag: false,
        radio_reference_id: entity_id(0, 0, 0),
        radio_number: uv16(0, 0),
        radio_type: None,
        transmit_state: 3,
        input_source: VarInt::uvint8(0),
        antenna_location: None,
        relative_antenna_location: None,
        antenna_pattern_type: Some(7),
        frequency: None,
        transmit_frequency_bandwidth: None,
        power: None,
        modulation_type: Some(ModulationType { spread_spectrum: 1, major_modulation: 2, detail: 3, radio_system: 4 }),
        crypto_system: None,
        crypto_key_id: Some(0xFFFF),
        modulation_parameters: vec![0xAA],
        antenna_pattern: Some(BeamAntennaPattern {
            beam_direction_psi: 0,
            beam_direction_theta: 0,
            beam_direction_phi: 0,
            az_beamwidth: 0,
            el_beamwidth: 0,
            reference_system: 0,
            e_z: 0,
            e_x: 0,
            phase: 0,
        }),
        variable_transmitter_parameters: vec![VariableTransmitterParameter { record_type: 1, fields: vec![1, 2] }],
    };
    let mut buf = create_bit_buffer();
    let cursor = transmitter.serialize(&mut buf, 0);
    let head = 8 + 3 + 30 + 10 + 2 + 5;
    let middle = 5 + 3 + 10;
    let tail = 16 + 16 + 8 + 8 + 112 + (32 + 16 + 16);
    assert_eq!(cursor, head + middle + tail);
    let bytes = buf.as_raw_slice();
    assert_eq!(bytes[0], 0xFF);
    assert_eq!(bytes[1] >> 5, 0b010);
}

#[test]
fn pdu_is_header_then_body() {
    let header = CdisHeader {
        protocol_version: 1,
        exercise_id: VarInt::uvint8(1),
        pdu_type: 27,
        timestamp: CdisTimestamp { value: 0 },
        length: 0,
        pdu_status: PduStatus::default(),
    };
    let pdu = CdisPdu { header, body: CdisBody::Receiver(receiver()) };
    let mut buf = create_bit_buffer();
    let cursor = pdu.serialize(&mut buf, 0);
    assert_eq!(cursor, header.record_length() + 30 + 13 + 2 + 9 + 44 + 10);
    assert_eq!(receiver_body(buf.as_raw_slice(), header.record_length()), Some((cursor, CdisBody::Receiver(receiver()))));
    let unsupported = CdisPdu { header, body: CdisBody::Unsupported };
    assert_eq!(unsupported.serialize(&mut buf, 0), header.record_length());
}

#[test]
fn serialize_when_present_none_past_the_buffer() {
    let mut buf = create_bit_buffer();
    let none: Option<u16> = None;
    let end = 8 * cdis_assemble::constants::MTU_BITS + 100;
    assert_eq!(serialize_when_present(&none, &mut buf, end), end);
    assert!(buf.as_raw_slice().iter().all(|b| *b == 0));
}
