use vstd::prelude::*;
use crate::bits::{lemma_subrange_split, lemma_subrange_within};
use crate::bits::{bits_value, lemma_unsigned_roundtrip, lemma_written_part, written_at};
use crate::bits::{int_bits, lemma_int_bits_len, lemma_splice_append, lemma_splice_empty, splice};
use crate::constants::{
    EIGHT_BITS, FOUR_BITS, ONE_BIT, SIXTEEN_BITS, TEN_BITS, THIRTEEN_BITS, THIRTY_TWO_BITS,
    THREE_BITS, TWO_BITS,
};
use crate::transmitter::model::{BeamAntennaPattern, ModulationType, Transmitter, VariableTransmitterParameter};
use crate::types::{VarInt, uvint8_of};
use crate::writing::{
    BitBuffer, SerializeCdis, buffer_bits, flag_bits, lemma_octets_serializable, option_bits,
    option_encoding, option_serializable, seq_encoding, seq_serializable, serialize_all,
    serialize_when_present, write_bits_when_present, write_flag, write_integer_bits,
    write_signed_bits,
};

verus! {

broadcast use lemma_int_bits_len;

impl BeamAntennaPattern {
    /// Length in bits of the pattern.
    pub fn record_length(&self) -> (n: usize)
        ensures
            n == self.encoding().len(),
            n == 112,
    {
        5 * THIRTEEN_BITS + TWO_BITS + SIXTEEN_BITS + SIXTEEN_BITS + THIRTEEN_BITS
    }
}

impl SerializeCdis for BeamAntennaPattern {
    open spec fn serializable(&self) -> bool {
        true
    }

    /// Beam direction psi, theta, phi, azimuth and elevation beamwidth (13
    /// bits each), reference system (2 bits), Ez and Ex (16 bits each), phase
    /// (13 bits).
    open spec fn encoding(&self) -> Seq<bool> {
        int_bits(self.beam_direction_psi as int, 13) + int_bits(self.beam_direction_theta as int, 13)
            + int_bits(self.beam_direction_phi as int, 13) + int_bits(self.az_beamwidth as int, 13)
            + int_bits(self.el_beamwidth as int, 13) + int_bits(self.reference_system as int, 2)
            + int_bits(self.e_z as int, 16) + int_bits(self.e_x as int, 16)
            + int_bits(self.phase as int, 13)
    }

    fn serialize(&self, buf: &mut BitBuffer, cursor: usize) -> (next: usize) {
        let ghost b0 = buffer_bits(*buf);
        let ghost e1 = int_bits(self.beam_direction_psi as int, 13);
        let ghost e2 = int_bits(self.beam_direction_theta as int, 13);
        let ghost e3 = int_bits(self.beam_direction_phi as int, 13);
        let ghost e4 = int_bits(self.az_beamwidth as int, 13);
        let ghost e5 = int_bits(self.el_beamwidth as int, 13);
        let ghost e6 = int_bits(self.reference_system as int, 2);
        let ghost e7 = int_bits(self.e_z as int, 16);
        let ghost e8 = int_bits(self.e_x as int, 16);
        let ghost e9 = int_bits(self.phase as int, 13);
        let ghost mut acc = e1;
        let c = write_signed_bits(buf, cursor, THIRTEEN_BITS, self.beam_direction_psi as i64);
        proof { lemma_splice_append(b0, cursor as int, acc, e2); acc = acc + e2; }
        let c = write_signed_bits(buf, c, THIRTEEN_BITS, self.beam_direction_theta as i64);
        proof { lemma_splice_append(b0, cursor as int, acc, e3); acc = acc + e3; }
        let c = write_signed_bits(buf, c, THIRTEEN_BITS, self.beam_direction_phi as i64);
        proof { lemma_splice_append(b0, cursor as int, acc, e4); acc = acc + e4; }
        let c = write_signed_bits(buf, c, THIRTEEN_BITS, self.az_beamwidth as i64);
        proof { lemma_splice_append(b0, cursor as int, acc, e5); acc = acc + e5; }
        let c = write_signed_bits(buf, c, THIRTEEN_BITS, self.el_beamwidth as i64);
        proof { lemma_splice_append(b0, cursor as int, acc, e6); acc = acc + e6; }
        let c = write_integer_bits(buf, c, TWO_BITS, self.reference_system as u64);
        proof { lemma_splice_append(b0, cursor as int, acc, e7); acc = acc + e7; }
        let c = write_signed_bits(buf, c, SIXTEEN_BITS, self.e_z as i64);
        proof { lemma_splice_append(b0, cursor as int, acc, e8); acc = acc + e8; }
        let c = write_signed_bits(buf, c, SIXTEEN_BITS, self.e_x as i64);
        proof { lemma_splice_append(b0, cursor as int, acc, e9); acc = acc + e9; }
        write_signed_bits(buf, c, THIRTEEN_BITS, self.phase as i64)
    }
}

impl SerializeCdis for VariableTransmitterParameter {
    open spec fn serializable(&self) -> bool {
        self.fields.len() + 6 <= usize::MAX
    }

    /// Record type (32 bits), record length in octets (the fields and six
    /// octets of record header, 16 bits), then the field octets.
    open spec fn encoding(&self) -> Seq<bool> {
        int_bits(self.record_type as int, 32) + int_bits(self.fields.len() + 6, 16)
            + seq_encoding(self.fields@)
    }

    fn serialize(&self, buf: &mut BitBuffer, cursor: usize) -> (next: usize) {
        let ghost b0 = buffer_bits(*buf);
        let ghost e1 = int_bits(self.record_type as int, 32);
        let ghost e2 = int_bits(self.fields.len() + 6, 16);
        let ghost e3 = seq_encoding(self.fields@);
        let c = write_integer_bits(buf, cursor, THIRTY_TWO_BITS, self.record_type as u64);
        let record_length = self.fields.len() + 6;
        proof { lemma_splice_append(b0, cursor as int, e1, e2); }
        let c = write_integer_bits(buf, c, SIXTEEN_BITS, record_length as u64);
        proof {
            lemma_splice_append(b0, cursor as int, e1 + e2, e3);
            lemma_octets_serializable(self.fields@);
        }
        serialize_all(&self.fields, buf, c)
    }
}

/// The bits of a modulation type: its four codes, 4 bits each.
pub open spec fn modulation_bits(modulation: ModulationType) -> Seq<bool> {
    int_bits(modulation.spread_spectrum as int, 4) + int_bits(modulation.major_modulation as int, 4)
        + int_bits(modulation.detail as int, 4) + int_bits(modulation.radio_system as int, 4)
}

/// An optional 16-bit code as an optional 64-bit value.
pub open spec fn option_u16_value(code: Option<u16>) -> Option<u64> {
    match code {
        Some(c) => Some(c as u64),
        None => None,
    }
}

fn option_u16_to_u64(code: Option<u16>) -> (value: Option<u64>)
    ensures
        value == option_u16_value(code),
{
    match code {
        Some(c) => Some(c as u64),
        None => None,
    }
}

impl Transmitter {
    /// The number of variable transmitter parameters, as a UVINT8, when there are any.
    pub open spec fn parameter_count_encoding(&self) -> Seq<bool> {
        if self.variable_transmitter_parameters.len() == 0 {
            Seq::empty()
        } else {
            uvint8_of(self.variable_transmitter_parameters.len() as u8).encoding()
        }
    }

    /// The length of the antenna pattern (10 bits), when there is one.
    pub open spec fn antenna_pattern_length_encoding(&self) -> Seq<bool> {
        match self.antenna_pattern {
            Some(pattern) => int_bits(pattern.encoding().len() as int, 10),
            None => Seq::empty(),
        }
    }

    pub open spec fn modulation_encoding(&self) -> Seq<bool> {
        match self.modulation_type {
            Some(modulation) => modulation_bits(modulation),
            None => Seq::empty(),
        }
    }

    /// The number of modulation parameters (8 bits) and the parameters, when there are any.
    pub open spec fn modulation_parameters_encoding(&self) -> Seq<bool> {
        if self.modulation_parameters.len() == 0 {
            Seq::empty()
        } else {
            int_bits(self.modulation_parameters.len() as int, 8) + seq_encoding(self.modulation_parameters@)
        }
    }

    /// The part of the body up to the input source.
    pub open spec fn head_encoding(&self) -> Seq<bool> {
        int_bits(self.fields_present as int, 8) + int_bits(self.units.world_location_altitude as int, 1)
            + int_bits(self.units.relative_antenna_location as int, 1) + flag_bits(self.full_update_flag)
            + self.radio_reference_id.encoding() + self.radio_number.encoding()
            + option_encoding(self.radio_type) + int_bits(self.transmit_state as int, 2)
            + self.input_source.encoding()
    }

    /// The part of the body from the parameter count to the power.
    pub open spec fn middle_encoding(&self) -> Seq<bool> {
        self.parameter_count_encoding() + option_encoding(self.antenna_location)
            + option_encoding(self.relative_antenna_location)
            + option_bits(option_u16_value(self.antenna_pattern_type), 3)
            + self.antenna_pattern_length_encoding() + option_encoding(self.frequency)
            + option_encoding(self.transmit_frequency_bandwidth) + option_encoding(self.power)
    }

    /// The part of the body from the modulation type on.
    pub open spec fn tail_encoding(&self) -> Seq<bool> {
        self.modulation_encoding() + option_bits(option_u16_value(self.crypto_system), 4)
            + option_bits(option_u16_value(self.crypto_key_id), 16)
            + self.modulation_parameters_encoding() + option_encoding(self.antenna_pattern)
            + seq_encoding(self.variable_transmitter_parameters@)
    }

    fn serialize_head(&self, buf: &mut BitBuffer, cursor: usize) -> (next: usize)
        requires
            self.serializable(),
            cursor + self.head_encoding().len() <= buffer_bits(*old(buf)).len(),
        ensures
            next == cursor + self.head_encoding().len(),
            buffer_bits(*final(buf)) == splice(buffer_bits(*old(buf)), cursor as int, self.head_encoding()),
    {
        let ghost b0 = buffer_bits(*buf);
        let ghost e1 = int_bits(self.fields_present as int, 8);
        let ghost e2 = int_bits(self.units.world_location_altitude as int, 1);
        let ghost e3 = int_bits(self.units.relative_antenna_location as int, 1);
        let ghost e4 = flag_bits(self.full_update_flag);
        let ghost e5 = self.radio_reference_id.encoding();
        let ghost e6 = self.radio_number.encoding();
        let ghost e7 = option_encoding(self.radio_type);
        let ghost e8 = int_bits(self.transmit_state as int, 2);
        let ghost e9 = self.input_source.encoding();
        proof { lemma_int_bits_len(if self.full_update_flag { 1int } else { 0int }, 1); }
        let ghost mut acc = e1;
        let c = write_integer_bits(buf, cursor, EIGHT_BITS, self.fields_present as u64);
        proof { lemma_splice_append(b0, cursor as int, acc, e2); acc = acc + e2; }
        let c = write_integer_bits(buf, c, ONE_BIT, self.units.world_location_altitude as u64);
        proof { lemma_splice_append(b0, cursor as int, acc, e3); acc = acc + e3; }
        let c = write_integer_bits(buf, c, ONE_BIT, self.units.relative_antenna_location as u64);
        proof { lemma_splice_append(b0, cursor as int, acc, e4); acc = acc + e4; }
        let c = write_flag(buf, c, self.full_update_flag);
        proof { lemma_splice_append(b0, cursor as int, acc, e5); acc = acc + e5; }
        let c = self.radio_reference_id.serialize(buf, c);
        proof { lemma_splice_append(b0, cursor as int, acc, e6); acc = acc + e6; }
        let c = self.radio_number.serialize(buf, c);
        proof { lemma_splice_append(b0, cursor as int, acc, e7); acc = acc + e7; }
        let c = serialize_when_present(&self.radio_type, buf, c);
        proof { lemma_splice_append(b0, cursor as int, acc, e8); acc = acc + e8; }
        let c = write_integer_bits(buf, c, TWO_BITS, self.transmit_state as u64);
        proof { lemma_splice_append(b0, cursor as int, acc, e9); acc = acc + e9; }
        self.input_source.serialize(buf, c)
    }

    fn serialize_middle(&self, buf: &mut BitBuffer, cursor: usize) -> (next: usize)
        requires
            self.serializable(),
            cursor + self.middle_encoding().len() <= buffer_bits(*old(buf)).len(),
        ensures
            next == cursor + self.middle_encoding().len(),
            buffer_bits(*final(buf)) == splice(buffer_bits(*old(buf)), cursor as int, self.middle_encoding()),
    {
        let ghost b0 = buffer_bits(*buf);
        let ghost e1 = self.parameter_count_encoding();
        let ghost e2 = option_encoding(self.antenna_location);
        let ghost e3 = option_encoding(self.relative_antenna_location);
        let ghost e4 = option_bits(option_u16_value(self.antenna_pattern_type), 3);
        let ghost e5 = self.antenna_pattern_length_encoding();
        let ghost e6 = option_encoding(self.frequency);
        let ghost e7 = option_encoding(self.transmit_frequency_bandwidth);
        let ghost e8 = option_encoding(self.power);
        let c = if self.variable_transmitter_parameters.is_empty() {
            proof { lemma_splice_empty(b0, cursor as int); }
            cursor
        } else {
            let count = VarInt::uvint8(self.variable_transmitter_parameters.len() as u8);
            count.serialize(buf, cursor)
        };
        let ghost mut acc = e1;
        proof { lemma_splice_append(b0, cursor as int, acc, e2); acc = acc + e2; }
        let c = serialize_when_present(&self.antenna_location, buf, c);
        proof { lemma_splice_append(b0, cursor as int, acc, e3); acc = acc + e3; }
        let c = serialize_when_present(&self.relative_antenna_location, buf, c);
        proof { lemma_splice_append(b0, cursor as int, acc, e4); acc = acc + e4; }
        let c = write_bits_when_present(buf, c, THREE_BITS, option_u16_to_u64(self.antenna_pattern_type));
        proof { lemma_splice_append(b0, cursor as int, acc, e5); }
        let c = if let Some(pattern) = self.antenna_pattern {
            let length = pattern.record_length();
            write_integer_bits(buf, c, TEN_BITS, length as u64)
        } else {
            proof { lemma_splice_empty(buffer_bits(*buf), c as int); assert(acc + e5 =~= acc); }
            c
        };
        proof { acc = acc + e5; lemma_splice_append(b0, cursor as int, acc, e6); acc = acc + e6; }
        let c = serialize_when_present(&self.frequency, buf, c);
        proof { lemma_splice_append(b0, cursor as int, acc, e7); acc = acc + e7; }
        let c = serialize_when_present(&self.transmit_frequency_bandwidth, buf, c);
        proof { lemma_splice_append(b0, cursor as int, acc, e8); acc = acc + e8; }
        serialize_when_present(&self.power, buf, c)
    }

    fn serialize_tail(&self, buf: &mut BitBuffer, cursor: usize) -> (next: usize)
        requires
            self.serializable(),
            cursor + self.tail_encoding().len() <= buffer_bits(*old(buf)).len(),
        ensures
            next == cursor + self.tail_encoding().len(),
            buffer_bits(*final(buf)) == splice(buffer_bits(*old(buf)), cursor as int, self.tail_encoding()),
    {
        let ghost b0 = buffer_bits(*buf);
        let ghost e1 = self.modulation_encoding();
        let ghost e2 = option_bits(option_u16_value(self.crypto_system), 4);
        let ghost e3 = option_bits(option_u16_value(self.crypto_key_id), 16);
        let ghost e4 = self.modulation_parameters_encoding();
        let ghost e5 = option_encoding(self.antenna_pattern);
        let ghost e6 = seq_encoding(self.variable_transmitter_parameters@);
        let c = if let Some(modulation) = &self.modulation_type {
            let ghost m1 = int_bits(modulation.spread_spectrum as int, 4);
            let ghost m2 = int_bits(modulation.major_modulation as int, 4);
            let ghost m3 = int_bits(modulation.detail as int, 4);
            let ghost m4 = int_bits(modulation.radio_system as int, 4);
            let c = write_integer_bits(buf, cursor, FOUR_BITS, modulation.spread_spectrum as u64);
            proof { lemma_splice_append(b0, cursor as int, m1, m2); }
            let c = write_integer_bits(buf, c, FOUR_BITS, modulation.major_modulation as u64);
            proof { lemma_splice_append(b0, cursor as int, m1 + m2, m3); }
            let c = write_integer_bits(buf, c, FOUR_BITS, modulation.detail as u64);
            proof { lemma_splice_append(b0, cursor as int, m1 + m2 + m3, m4); }
            write_integer_bits(buf, c, FOUR_BITS, modulation.radio_system as u64)
        } else {
            proof { lemma_splice_empty(b0, cursor as int); }
            cursor
        };
        let ghost mut acc = e1;
        proof { lemma_splice_append(b0, cursor as int, acc, e2); acc = acc + e2; }
        let c = write_bits_when_present(buf, c, FOUR_BITS, option_u16_to_u64(self.crypto_system));
        proof { lemma_splice_append(b0, cursor as int, acc, e3); acc = acc + e3; }
        let c = write_bits_when_present(buf, c, SIXTEEN_BITS, option_u16_to_u64(self.crypto_key_id));
        proof { lemma_splice_append(b0, cursor as int, acc, e4); }
        let c = if !self.modulation_parameters.is_empty() {
            let ghost p1 = int_bits(self.modulation_parameters.len() as int, 8);
            let ghost p2 = seq_encoding(self.modulation_parameters@);
            proof {
                lemma_splice_append(b0, cursor as int, acc, p1);
                lemma_splice_append(b0, cursor as int, acc + p1, p2);
                assert(acc + p1 + p2 =~= acc + e4);
                lemma_octets_serializable(self.modulation_parameters@);
            }
            let c = write_integer_bits(buf, c, EIGHT_BITS, self.modulation_parameters.len() as u64);
            serialize_all(&self.modulation_parameters, buf, c)
        } else {
            proof { lemma_splice_empty(buffer_bits(*buf), c as int); assert(acc + e4 =~= acc); }
            c
        };
        proof { acc = acc + e4; lemma_splice_append(b0, cursor as int, acc, e5); acc = acc + e5; }
        let c = serialize_when_present(&self.antenna_pattern, buf, c);
        proof { lemma_splice_append(b0, cursor as int, acc, e6); acc = acc + e6; }
        serialize_all(&self.variable_transmitter_parameters, buf, c)
    }
}

impl SerializeCdis for Transmitter {
    open spec fn serializable(&self) -> bool {
        &&& self.radio_reference_id.serializable()
        &&& self.radio_number.serializable()
        &&& option_serializable(self.radio_type)
        &&& self.input_source.serializable()
        &&& option_serializable(self.antenna_location)
        &&& option_serializable(self.relative_antenna_location)
        &&& option_serializable(self.frequency)
        &&& option_serializable(self.transmit_frequency_bandwidth)
        &&& option_serializable(self.power)
        &&& option_serializable(self.antenna_pattern)
        &&& seq_serializable(self.variable_transmitter_parameters@)
    }

    /// Fields-present flags (8 bits), the two units flags and the full update
    /// flag (a bit each), radio reference id, radio number, radio type when
    /// present, transmit state (2 bits), input source, the number of variable
    /// transmitter parameters when there are any, antenna location and
    /// relative antenna location when present, antenna pattern type (3 bits)
    /// and the antenna pattern's length (10 bits) when present, frequency,
    /// bandwidth, power, modulation type and crypto system (4 bits) and key id
    /// (16 bits) when present, the modulation parameters with their count
    /// (8 bits) when there are any, the antenna pattern when present, then the
    /// variable transmitter parameters.
    open spec fn encoding(&self) -> Seq<bool> {
        self.head_encoding() + self.middle_encoding() + self.tail_encoding()
    }

    fn serialize(&self, buf: &mut BitBuffer, cursor: usize) -> (next: usize) {
        let ghost b0 = buffer_bits(*buf);
        proof { lemma_splice_append(b0, cursor as int, self.head_encoding(), self.middle_encoding()); }
        let c = self.serialize_head(buf, cursor);
        let c = self.serialize_middle(buf, c);
        proof { lemma_splice_append(b0, cursor as int, self.head_encoding() + self.middle_encoding(), self.tail_encoding()); }
        self.serialize_tail(buf, c)
    }
}

/// Where a variable transmitter parameter is written, the record type stands
/// in its first 32 bits, then the record length in octets (the field octets
/// and six octets of record header) in 16 bits, then the field octets; the
/// length field reads back as the number of field octets plus six wherever
/// that fits in 16 bits.
pub proof fn lemma_variable_transmitter_parameter_layout(x: VariableTransmitterParameter, bits: Seq<bool>, cursor: int)
    requires
        0 <= cursor,
        cursor + x.encoding().len() <= bits.len(),
    ensures
        ({
            let w = splice(bits, cursor, x.encoding());
            let record_type = int_bits(x.record_type as int, 32);
            let record_length = int_bits(x.fields.len() + 6, 16);
            let fields = seq_encoding(x.fields@);
            let o0 = cursor;
            let o1 = o0 + record_type.len();
            let o2 = o1 + record_length.len();
            &&& x.encoding().len() == record_type.len() + record_length.len() + fields.len()
            &&& written_at(w, o0, record_type)
            &&& written_at(w, o1, record_length)
            &&& written_at(w, o2, fields)
            &&& (x.fields.len() + 6 < 0x10000 ==> bits_value(w.subrange(cursor + 32, cursor + 48)) == x.fields.len() + 6)
            &&& (bits_value(w.subrange(cursor, cursor + 32)) == x.record_type)
        }),
{
    let e = x.encoding();
    let w = splice(bits, cursor, e);
    let record_type = int_bits(x.record_type as int, 32);
    let record_length = int_bits(x.fields.len() + 6, 16);
    let fields = seq_encoding(x.fields@);
    let o0 = 0int;
    let o1 = o0 + record_type.len();
    let o2 = o1 + record_length.len();
    assert(e.subrange(o0, o0 + record_type.len()) =~= record_type);
    lemma_written_part(bits, cursor, e, o0, record_type);
    assert(e.subrange(o1, o1 + record_length.len()) =~= record_length);
    lemma_written_part(bits, cursor, e, o1, record_length);
    assert(e.subrange(o2, o2 + fields.len()) =~= fields);
    lemma_written_part(bits, cursor, e, o2, fields);
    vstd::arithmetic::power2::lemma2_to64();
    if x.fields.len() + 6 < 0x10000 { lemma_unsigned_roundtrip(x.fields.len() + 6, 16); }
    lemma_unsigned_roundtrip(x.record_type as int, 32);
}

proof fn lemma_transmitter_layout_part0(x: Transmitter)
    ensures
        x.head_encoding() == (int_bits(x.fields_present as int, 8)) + (int_bits(x.units.world_location_altitude as int, 1)) + (int_bits(x.units.relative_antenna_location as int, 1)) + (flag_bits(x.full_update_flag)) + (x.radio_reference_id.encoding()) + (x.radio_number.encoding()) + (option_encoding(x.radio_type)) + (int_bits(x.transmit_state as int, 2)) + (x.input_source.encoding()),
{
    reveal(option_bits);
    let fields_present = int_bits(x.fields_present as int, 8);
    let altitude_units = int_bits(x.units.world_location_altitude as int, 1);
    let relative_units = int_bits(x.units.relative_antenna_location as int, 1);
    let full_update = flag_bits(x.full_update_flag);
    let radio_reference_id = x.radio_reference_id.encoding();
    let radio_number = x.radio_number.encoding();
    let radio_type = option_encoding(x.radio_type);
    let transmit_state = int_bits(x.transmit_state as int, 2);
    let input_source = x.input_source.encoding();
    assert(x.head_encoding() =~= fields_present + altitude_units + relative_units + full_update + radio_reference_id + radio_number + radio_type + transmit_state + input_source);
}

proof fn lemma_transmitter_layout_part1(x: Transmitter)
    ensures
        x.middle_encoding() == (if x.variable_transmitter_parameters.len() == 0 { Seq::empty() } else { uvint8_of(x.variable_transmitter_parameters.len() as u8).encoding() }) + (option_encoding(x.antenna_location)) + (option_encoding(x.relative_antenna_location)) + (match x.antenna_pattern_type { Some(t) => int_bits(t as int, 3), None => Seq::empty() }) + (match x.antenna_pattern { Some(p) => int_bits(p.encoding().len() as int, 10), None => Seq::empty() }) + (option_encoding(x.frequency)) + (option_encoding(x.transmit_frequency_bandwidth)) + (option_encoding(x.power)),
{
    reveal(option_bits);
    let parameter_count = if x.variable_transmitter_parameters.len() == 0 { Seq::empty() } else { uvint8_of(x.variable_transmitter_parameters.len() as u8).encoding() };
    let antenna_location = option_encoding(x.antenna_location);
    let relative_antenna_location = option_encoding(x.relative_antenna_location);
    let pattern_type = match x.antenna_pattern_type { Some(t) => int_bits(t as int, 3), None => Seq::empty() };
    let pattern_length = match x.antenna_pattern { Some(p) => int_bits(p.encoding().len() as int, 10), None => Seq::empty() };
    let frequency = option_encoding(x.frequency);
    let bandwidth = option_encoding(x.transmit_frequency_bandwidth);
    let power = option_encoding(x.power);
    assert(x.middle_encoding() =~= parameter_count + antenna_location + relative_antenna_location + pattern_type + pattern_length + frequency + bandwidth + power);
}

proof fn lemma_transmitter_layout_part2(x: Transmitter)
    ensures
        x.tail_encoding() == (match x.modulation_type { Some(m) => int_bits(m.spread_spectrum as int, 4), None => Seq::empty() }) + (match x.modulation_type { Some(m) => int_bits(m.major_modulation as int, 4), None => Seq::empty() }) + (match x.modulation_type { Some(m) => int_bits(m.detail as int, 4), None => Seq::empty() }) + (match x.modulation_type { Some(m) => int_bits(m.radio_system as int, 4), None => Seq::empty() }) + (match x.crypto_system { Some(c) => int_bits(c as int, 4), None => Seq::empty() }) + (match x.crypto_key_id { Some(k) => int_bits(k as int, 16), None => Seq::empty() }) + (if x.modulation_parameters.len() == 0 { Seq::empty() } else { int_bits(x.modulation_parameters.len() as int, 8) }) + (if x.modulation_parameters.len() == 0 { Seq::empty() } else { seq_encoding(x.modulation_parameters@) }) + (option_encoding(x.antenna_pattern)) + (seq_encoding(x.variable_transmitter_parameters@)),
{
    reveal(option_bits);
    let spread_spectrum = match x.modulation_type { Some(m) => int_bits(m.spread_spectrum as int, 4), None => Seq::empty() };
    let major_modulation = match x.modulation_type { Some(m) => int_bits(m.major_modulation as int, 4), None => Seq::empty() };
    let detail = match x.modulation_type { Some(m) => int_bits(m.detail as int, 4), None => Seq::empty() };
    let radio_system = match x.modulation_type { Some(m) => int_bits(m.radio_system as int, 4), None => Seq::empty() };
    let crypto_system = match x.crypto_system { Some(c) => int_bits(c as int, 4), None => Seq::empty() };
    let crypto_key_id = match x.crypto_key_id { Some(k) => int_bits(k as int, 16), None => Seq::empty() };
    let parameter_octet_count = if x.modulation_parameters.len() == 0 { Seq::empty() } else { int_bits(x.modulation_parameters.len() as int, 8) };
    let modulation_parameters = if x.modulation_parameters.len() == 0 { Seq::empty() } else { seq_encoding(x.modulation_parameters@) };
    let antenna_pattern = option_encoding(x.antenna_pattern);
    let variable_parameters = seq_encoding(x.variable_transmitter_parameters@);
    assert(x.tail_encoding() =~= spread_spectrum + major_modulation + detail + radio_system + crypto_system + crypto_key_id + parameter_octet_count + modulation_parameters + antenna_pattern + variable_parameters);
}

/// Where a Transmitter body is written, its fields stand in this order, each
/// right after the one before: the fields-present flags (8 bits), the world
/// location altitude and relative antenna location units flags and the full
/// update flag (a bit each), the radio reference id, the radio number, the
/// radio type where present, the transmit state (2 bits), the input source,
/// the number of variable transmitter parameters where there are any, the
/// antenna location and the relative antenna location where present, the
/// antenna pattern type (3 bits) and the antenna pattern's length (10 bits)
/// where present, the frequency, bandwidth and power where present, the
/// modulation type's spread spectrum, major modulation, detail and radio
/// system (4 bits each) where present, the crypto system (4 bits) and crypto
/// key id (16 bits) where present, the number of modulation parameter octets
/// (8 bits) and the octets where there are any, the antenna pattern where
/// present, then the variable transmitter parameters.
/// This part states the fields up to the input source.
#[verifier::rlimit(80)]
pub proof fn lemma_transmitter_layout_1(x: Transmitter, bits: Seq<bool>, cursor: int)
    requires
        0 <= cursor,
        cursor + x.encoding().len() <= bits.len(),
    ensures
        ({
            let w = splice(bits, cursor, x.encoding());
            let fields_present = int_bits(x.fields_present as int, 8);
            let altitude_units = int_bits(x.units.world_location_altitude as int, 1);
            let relative_units = int_bits(x.units.relative_antenna_location as int, 1);
            let full_update = flag_bits(x.full_update_flag);
            let radio_reference_id = x.radio_reference_id.encoding();
            let radio_number = x.radio_number.encoding();
            let radio_type = option_encoding(x.radio_type);
            let transmit_state = int_bits(x.transmit_state as int, 2);
            let input_source = x.input_source.encoding();
            let o0 = cursor;
            let o1 = o0 + fields_present.len();
            let o2 = o1 + altitude_units.len();
            let o3 = o2 + relative_units.len();
            let o4 = o3 + full_update.len();
            let o5 = o4 + radio_reference_id.len();
            let o6 = o5 + radio_number.len();
            let o7 = o6 + radio_type.len();
            let o8 = o7 + transmit_state.len();
            &&& written_at(w, o0, fields_present)
            &&& written_at(w, o1, altitude_units)
            &&& written_at(w, o2, relative_units)
            &&& written_at(w, o3, full_update)
            &&& written_at(w, o4, radio_reference_id)
            &&& written_at(w, o5, radio_number)
            &&& written_at(w, o6, radio_type)
            &&& written_at(w, o7, transmit_state)
            &&& written_at(w, o8, input_source)
        }),
{
    let e = x.encoding();
    let block0 = x.head_encoding();
    let block1 = x.middle_encoding();
    let block2 = x.tail_encoding();
    lemma_transmitter_layout_part0(x);
    lemma_transmitter_layout_part1(x);
    lemma_transmitter_layout_part2(x);
    let fields_present = int_bits(x.fields_present as int, 8);
    let altitude_units = int_bits(x.units.world_location_altitude as int, 1);
    let relative_units = int_bits(x.units.relative_antenna_location as int, 1);
    let full_update = flag_bits(x.full_update_flag);
    let radio_reference_id = x.radio_reference_id.encoding();
    let radio_number = x.radio_number.encoding();
    let radio_type = option_encoding(x.radio_type);
    let transmit_state = int_bits(x.transmit_state as int, 2);
    let input_source = x.input_source.encoding();
    assert(e == block0 + block1 + block2);
    assert(e.subrange(0, e.len() as int) =~= e);
    lemma_subrange_split(e, 0, block0 + block1, block2);
    lemma_subrange_split(e, 0, block0, block1);
    let a: int = (0int) as int;
    let c1 = fields_present;
    let c2 = c1 + altitude_units;
    let c3 = c2 + relative_units;
    let c4 = c3 + full_update;
    let c5 = c4 + radio_reference_id;
    let c6 = c5 + radio_number;
    let c7 = c6 + radio_type;
    let c8 = c7 + transmit_state;
    let c9 = c8 + input_source;
    assert(block0.subrange(0, block0.len() as int) =~= block0);
    lemma_subrange_split(block0, 0, c8, input_source);
    lemma_subrange_split(block0, 0, c7, transmit_state);
    lemma_subrange_split(block0, 0, c6, radio_type);
    lemma_subrange_split(block0, 0, c5, radio_number);
    lemma_subrange_split(block0, 0, c4, radio_reference_id);
    lemma_subrange_split(block0, 0, c3, full_update);
    lemma_subrange_split(block0, 0, c2, relative_units);
    lemma_subrange_split(block0, 0, c1, altitude_units);
    lemma_subrange_within(e, a, block0, 0int, fields_present);
    lemma_written_part(bits, cursor, e, a + 0int, fields_present);
    lemma_subrange_within(e, a, block0, c1.len() as int, altitude_units);
    lemma_written_part(bits, cursor, e, a + c1.len() as int, altitude_units);
    lemma_subrange_within(e, a, block0, c2.len() as int, relative_units);
    lemma_written_part(bits, cursor, e, a + c2.len() as int, relative_units);
    lemma_subrange_within(e, a, block0, c3.len() as int, full_update);
    lemma_written_part(bits, cursor, e, a + c3.len() as int, full_update);
    lemma_subrange_within(e, a, block0, c4.len() as int, radio_reference_id);
    lemma_written_part(bits, cursor, e, a + c4.len() as int, radio_reference_id);
    lemma_subrange_within(e, a, block0, c5.len() as int, radio_number);
    lemma_written_part(bits, cursor, e, a + c5.len() as int, radio_number);
    lemma_subrange_within(e, a, block0, c6.len() as int, radio_type);
    lemma_written_part(bits, cursor, e, a + c6.len() as int, radio_type);
    lemma_subrange_within(e, a, block0, c7.len() as int, transmit_state);
    lemma_written_part(bits, cursor, e, a + c7.len() as int, transmit_state);
    lemma_subrange_within(e, a, block0, c8.len() as int, input_source);
    lemma_written_part(bits, cursor, e, a + c8.len() as int, input_source);
}

/// Where a Transmitter body is written, the fields from the parameter count
/// to the power stand right after the input source, in the order that
/// `lemma_transmitter_layout_1` gives.
#[verifier::rlimit(80)]
pub proof fn lemma_transmitter_layout_2(x: Transmitter, bits: Seq<bool>, cursor: int)
    requires
        0 <= cursor,
        cursor + x.encoding().len() <= bits.len(),
    ensures
        ({
            let w = splice(bits, cursor, x.encoding());
            let fields_present = int_bits(x.fields_present as int, 8);
            let altitude_units = int_bits(x.units.world_location_altitude as int, 1);
            let relative_units = int_bits(x.units.relative_antenna_location as int, 1);
            let full_update = flag_bits(x.full_update_flag);
            let radio_reference_id = x.radio_reference_id.encoding();
            let radio_number = x.radio_number.encoding();
            let radio_type = option_encoding(x.radio_type);
            let transmit_state = int_bits(x.transmit_state as int, 2);
            let input_source = x.input_source.encoding();
            let parameter_count = if x.variable_transmitter_parameters.len() == 0 { Seq::empty() } else { uvint8_of(x.variable_transmitter_parameters.len() as u8).encoding() };
            let antenna_location = option_encoding(x.antenna_location);
            let relative_antenna_location = option_encoding(x.relative_antenna_location);
            let pattern_type = match x.antenna_pattern_type { Some(t) => int_bits(t as int, 3), None => Seq::empty() };
            let pattern_length = match x.antenna_pattern { Some(p) => int_bits(p.encoding().len() as int, 10), None => Seq::empty() };
            let frequency = option_encoding(x.frequency);
            let bandwidth = option_encoding(x.transmit_frequency_bandwidth);
            let power = option_encoding(x.power);
            let o0 = cursor;
            let o1 = o0 + fields_present.len();
            let o2 = o1 + altitude_units.len();
            let o3 = o2 + relative_units.len();
            let o4 = o3 + full_update.len();
            let o5 = o4 + radio_reference_id.len();
            let o6 = o5 + radio_number.len();
            let o7 = o6 + radio_type.len();
            let o8 = o7 + transmit_state.len();
            let o9 = o8 + input_source.len();
            let o10 = o9 + parameter_count.len();
            let o11 = o10 + antenna_location.len();
            let o12 = o11 + relative_antenna_location.len();
            let o13 = o12 + pattern_type.len();
            let o14 = o13 + pattern_length.len();
            let o15 = o14 + frequency.len();
            let o16 = o15 + bandwidth.len();
            &&& written_at(w, o9, parameter_count)
            &&& written_at(w, o10, antenna_location)
            &&& written_at(w, o11, relative_antenna_location)
            &&& written_at(w, o12, pattern_type)
            &&& written_at(w, o13, pattern_length)
            &&& written_at(w, o14, frequency)
            &&& written_at(w, o15, bandwidth)
            &&& written_at(w, o16, power)
        }),
{
    let e = x.encoding();
    let block0 = x.head_encoding();
    let block1 = x.middle_encoding();
    let block2 = x.tail_encoding();
    lemma_transmitter_layout_part0(x);
    lemma_transmitter_layout_part1(x);
    lemma_transmitter_layout_part2(x);
    let fields_present = int_bits(x.fields_present as int, 8);
    let altitude_units = int_bits(x.units.world_location_altitude as int, 1);
    let relative_units = int_bits(x.units.relative_antenna_location as int, 1);
    let full_update = flag_bits(x.full_update_flag);
    let radio_reference_id = x.radio_reference_id.encoding();
    let radio_number = x.radio_number.encoding();
    let radio_type = option_encoding(x.radio_type);
    let transmit_state = int_bits(x.transmit_state as int, 2);
    let input_source = x.input_source.encoding();
    let parameter_count = if x.variable_transmitter_parameters.len() == 0 { Seq::empty() } else { uvint8_of(x.variable_transmitter_parameters.len() as u8).encoding() };
    let antenna_location = option_encoding(x.antenna_location);
    let relative_antenna_location = option_encoding(x.relative_antenna_location);
    let pattern_type = match x.antenna_pattern_type { Some(t) => int_bits(t as int, 3), None => Seq::empty() };
    let pattern_length = match x.antenna_pattern { Some(p) => int_bits(p.encoding().len() as int, 10), None => Seq::empty() };
    let frequency = option_encoding(x.frequency);
    let bandwidth = option_encoding(x.transmit_frequency_bandwidth);
    let power = option_encoding(x.power);
    assert(e == block0 + block1 + block2);
    assert(e.subrange(0, e.len() as int) =~= e);
    lemma_subrange_split(e, 0, block0 + block1, block2);
    lemma_subrange_split(e, 0, block0, block1);
    let a: int = (block0.len()) as int;
    let c1 = parameter_count;
    let c2 = c1 + antenna_location;
    let c3 = c2 + relative_antenna_location;
    let c4 = c3 + pattern_type;
    let c5 = c4 + pattern_length;
    let c6 = c5 + frequency;
    let c7 = c6 + bandwidth;
    let c8 = c7 + power;
    assert(block1.subrange(0, block1.len() as int) =~= block1);
    lemma_subrange_split(block1, 0, c7, power);
    lemma_subrange_split(block1, 0, c6, bandwidth);
    lemma_subrange_split(block1, 0, c5, frequency);
    lemma_subrange_split(block1, 0, c4, pattern_length);
    lemma_subrange_split(block1, 0, c3, pattern_type);
    lemma_subrange_split(block1, 0, c2, relative_antenna_location);
    lemma_subrange_split(block1, 0, c1, antenna_location);
    lemma_subrange_within(e, a, block1, 0int, parameter_count);
    lemma_written_part(bits, cursor, e, a + 0int, parameter_count);
    lemma_subrange_within(e, a, block1, c1.len() as int, antenna_location);
    lemma_written_part(bits, cursor, e, a + c1.len() as int, antenna_location);
    lemma_subrange_within(e, a, block1, c2.len() as int, relative_antenna_location);
    lemma_written_part(bits, cursor, e, a + c2.len() as int, relative_antenna_location);
    lemma_subrange_within(e, a, block1, c3.len() as int, pattern_type);
    lemma_written_part(bits, cursor, e, a + c3.len() as int, pattern_type);
    lemma_subrange_within(e, a, block1, c4.len() as int, pattern_length);
    lemma_written_part(bits, cursor, e, a + c4.len() as int, pattern_length);
    lemma_subrange_within(e, a, block1, c5.len() as int, frequency);
    lemma_written_part(bits, cursor, e, a + c5.len() as int, frequency);
    lemma_subrange_within(e, a, block1, c6.len() as int, bandwidth);
    lemma_written_part(bits, cursor, e, a + c6.len() as int, bandwidth);
    lemma_subrange_within(e, a, block1, c7.len() as int, power);
    lemma_written_part(bits, cursor, e, a + c7.len() as int, power);
}

/// Where a Transmitter body is written, the modulation type's four fields and
/// the crypto system and key id stand right after the power, in the order
/// that `lemma_transmitter_layout_1` gives.
#[verifier::rlimit(100)]
pub proof fn lemma_transmitter_layout_3(x: Transmitter, bits: Seq<bool>, cursor: int)
    requires
        0 <= cursor,
        cursor + x.encoding().len() <= bits.len(),
    ensures
        ({
            let w = splice(bits, cursor, x.encoding());
            let fields_present = int_bits(x.fields_present as int, 8);
            let altitude_units = int_bits(x.units.world_location_altitude as int, 1);
            let relative_units = int_bits(x.units.relative_antenna_location as int, 1);
            let full_update = flag_bits(x.full_update_flag);
            let radio_reference_id = x.radio_reference_id.encoding();
            let radio_number = x.radio_number.encoding();
            let radio_type = option_encoding(x.radio_type);
            let transmit_state = int_bits(x.transmit_state as int, 2);
            let input_source = x.input_source.encoding();
            let parameter_count = if x.variable_transmitter_parameters.len() == 0 { Seq::empty() } else { uvint8_of(x.variable_transmitter_parameters.len() as u8).encoding() };
            let antenna_location = option_encoding(x.antenna_location);
            let relative_antenna_location = option_encoding(x.relative_antenna_location);
            let pattern_type = match x.antenna_pattern_type { Some(t) => int_bits(t as int, 3), None => Seq::empty() };
            let pattern_length = match x.antenna_pattern { Some(p) => int_bits(p.encoding().len() as int, 10), None => Seq::empty() };
            let frequency = option_encoding(x.frequency);
            let bandwidth = option_encoding(x.transmit_frequency_bandwidth);
            let power = option_encoding(x.power);
            let spread_spectrum = match x.modulation_type { Some(m) => int_bits(m.spread_spectrum as int, 4), None => Seq::empty() };
            let major_modulation = match x.modulation_type { Some(m) => int_bits(m.major_modulation as int, 4), None => Seq::empty() };
            let detail = match x.modulation_type { Some(m) => int_bits(m.detail as int, 4), None => Seq::empty() };
            let radio_system = match x.modulation_type { Some(m) => int_bits(m.radio_system as int, 4), None => Seq::empty() };
            let crypto_system = match x.crypto_system { Some(c) => int_bits(c as int, 4), None => Seq::empty() };
            let crypto_key_id = match x.crypto_key_id { Some(k) => int_bits(k as int, 16), None => Seq::empty() };
            let parameter_octet_count = if x.modulation_parameters.len() == 0 { Seq::empty() } else { int_bits(x.modulation_parameters.len() as int, 8) };
            let modulation_parameters = if x.modulation_parameters.len() == 0 { Seq::empty() } else { seq_encoding(x.modulation_parameters@) };
            let antenna_pattern = option_encoding(x.antenna_pattern);
            let variable_parameters = seq_encoding(x.variable_transmitter_parameters@);
            let o0 = cursor;
            let o1 = o0 + fields_present.len();
            let o2 = o1 + altitude_units.len();
            let o3 = o2 + relative_units.len();
            let o4 = o3 + full_update.len();
            let o5 = o4 + radio_reference_id.len();
            let o6 = o5 + radio_number.len();
            let o7 = o6 + radio_type.len();
            let o8 = o7 + transmit_state.len();
            let o9 = o8 + input_source.len();
            let o10 = o9 + parameter_count.len();
            let o11 = o10 + antenna_location.len();
            let o12 = o11 + relative_antenna_location.len();
            let o13 = o12 + pattern_type.len();
            let o14 = o13 + pattern_length.len();
            let o15 = o14 + frequency.len();
            let o16 = o15 + bandwidth.len();
            let o17 = o16 + power.len();
            let o18 = o17 + spread_spectrum.len();
            let o19 = o18 + major_modulation.len();
            let o20 = o19 + detail.len();
            let o21 = o20 + radio_system.len();
            let o22 = o21 + crypto_system.len();
            let o23 = o22 + crypto_key_id.len();
            let o24 = o23 + parameter_octet_count.len();
            let o25 = o24 + modulation_parameters.len();
            let o26 = o25 + antenna_pattern.len();
            &&& written_at(w, o17, spread_spectrum)
            &&& written_at(w, o18, major_modulation)
            &&& written_at(w, o19, detail)
            &&& written_at(w, o20, radio_system)
            &&& written_at(w, o21, crypto_system)
            &&& written_at(w, o22, crypto_key_id)
        }),
{
    let e = x.encoding();
    let block0 = x.head_encoding();
    let block1 = x.middle_encoding();
    let block2 = x.tail_encoding();
    lemma_transmitter_layout_part0(x);
    lemma_transmitter_layout_part1(x);
    lemma_transmitter_layout_part2(x);
    let fields_present = int_bits(x.fields_present as int, 8);
    let altitude_units = int_bits(x.units.world_location_altitude as int, 1);
    let relative_units = int_bits(x.units.relative_antenna_location as int, 1);
    let full_update = flag_bits(x.full_update_flag);
    let radio_reference_id = x.radio_reference_id.encoding();
    let radio_number = x.radio_number.encoding();
    let radio_type = option_encoding(x.radio_type);
    let transmit_state = int_bits(x.transmit_state as int, 2);
    let input_source = x.input_source.encoding();
    let parameter_count = if x.variable_transmitter_parameters.len() == 0 { Seq::empty() } else { uvint8_of(x.variable_transmitter_parameters.len() as u8).encoding() };
    let antenna_location = option_encoding(x.antenna_location);
    let relative_antenna_location = option_encoding(x.relative_antenna_location);
    let pattern_type = match x.antenna_pattern_type { Some(t) => int_bits(t as int, 3), None => Seq::empty() };
    let pattern_length = match x.antenna_pattern { Some(p) => int_bits(p.encoding().len() as int, 10), None => Seq::empty() };
    let frequency = option_encoding(x.frequency);
    let bandwidth = option_encoding(x.transmit_frequency_bandwidth);
    let power = option_encoding(x.power);
    let spread_spectrum = match x.modulation_type { Some(m) => int_bits(m.spread_spectrum as int, 4), None => Seq::empty() };
    let major_modulation = match x.modulation_type { Some(m) => int_bits(m.major_modulation as int, 4), None => Seq::empty() };
    let detail = match x.modulation_type { Some(m) => int_bits(m.detail as int, 4), None => Seq::empty() };
    let radio_system = match x.modulation_type { Some(m) => int_bits(m.radio_system as int, 4), None => Seq::empty() };
    let crypto_system = match x.crypto_system { Some(c) => int_bits(c as int, 4), None => Seq::empty() };
    let crypto_key_id = match x.crypto_key_id { Some(k) => int_bits(k as int, 16), None => Seq::empty() };
    let parameter_octet_count = if x.modulation_parameters.len() == 0 { Seq::empty() } else { int_bits(x.modulation_parameters.len() as int, 8) };
    let modulation_parameters = if x.modulation_parameters.len() == 0 { Seq::empty() } else { seq_encoding(x.modulation_parameters@) };
    let antenna_pattern = option_encoding(x.antenna_pattern);
    let variable_parameters = seq_encoding(x.variable_transmitter_parameters@);
    assert(e == block0 + block1 + block2);
    assert(e.subrange(0, e.len() as int) =~= e);
    lemma_subrange_split(e, 0, block0 + block1, block2);
    lemma_subrange_split(e, 0, block0, block1);
    assert(block0.len() == fields_present.len() + altitude_units.len() + relative_units.len() + full_update.len() + radio_reference_id.len() + radio_number.len() + radio_type.len() + transmit_state.len() + input_source.len());
    assert(block1.len() == parameter_count.len() + antenna_location.len() + relative_antenna_location.len() + pattern_type.len() + pattern_length.len() + frequency.len() + bandwidth.len() + power.len());
    assert(block2.len() == spread_spectrum.len() + major_modulation.len() + detail.len() + radio_system.len() + crypto_system.len() + crypto_key_id.len() + parameter_octet_count.len() + modulation_parameters.len() + antenna_pattern.len() + variable_parameters.len());
    let a: int = (block0.len() + block1.len()) as int;
    let c1 = spread_spectrum;
    let c2 = c1 + major_modulation;
    let c3 = c2 + detail;
    let c4 = c3 + radio_system;
    let c5 = c4 + crypto_system;
    let c6 = c5 + crypto_key_id;
    let c7 = c6 + parameter_octet_count;
    let c8 = c7 + modulation_parameters;
    let c9 = c8 + antenna_pattern;
    let c10 = c9 + variable_parameters;
    assert(block2.subrange(0, block2.len() as int) =~= block2);
    lemma_subrange_split(block2, 0, c9, variable_parameters);
    lemma_subrange_split(block2, 0, c8, antenna_pattern);
    lemma_subrange_split(block2, 0, c7, modulation_parameters);
    lemma_subrange_split(block2, 0, c6, parameter_octet_count);
    lemma_subrange_split(block2, 0, c5, crypto_key_id);
    lemma_subrange_split(block2, 0, c4, crypto_system);
    lemma_subrange_split(block2, 0, c3, radio_system);
    lemma_subrange_split(block2, 0, c2, detail);
    lemma_subrange_split(block2, 0, c1, major_modulation);
    lemma_subrange_within(e, a, block2, 0int, spread_spectrum);
    lemma_written_part(bits, cursor, e, a + 0int, spread_spectrum);
    lemma_subrange_within(e, a, block2, c1.len() as int, major_modulation);
    lemma_written_part(bits, cursor, e, a + c1.len() as int, major_modulation);
    lemma_subrange_within(e, a, block2, c2.len() as int, detail);
    lemma_written_part(bits, cursor, e, a + c2.len() as int, detail);
    lemma_subrange_within(e, a, block2, c3.len() as int, radio_system);
    lemma_written_part(bits, cursor, e, a + c3.len() as int, radio_system);
    lemma_subrange_within(e, a, block2, c4.len() as int, crypto_system);
    lemma_written_part(bits, cursor, e, a + c4.len() as int, crypto_system);
    lemma_subrange_within(e, a, block2, c5.len() as int, crypto_key_id);
    lemma_written_part(bits, cursor, e, a + c5.len() as int, crypto_key_id);
}

/// Where a Transmitter body is written, the modulation parameter octet count,
/// the modulation parameters, the antenna pattern and the variable transmitter
/// parameters stand right after the crypto key id, in the order that
/// `lemma_transmitter_layout_1` gives, and the body holds nothing else.
#[verifier::rlimit(100)]
pub proof fn lemma_transmitter_layout_4(x: Transmitter, bits: Seq<bool>, cursor: int)
    requires
        0 <= cursor,
        cursor + x.encoding().len() <= bits.len(),
    ensures
        ({
            let w = splice(bits, cursor, x.encoding());
            let fields_present = int_bits(x.fields_present as int, 8);
            let altitude_units = int_bits(x.units.world_location_altitude as int, 1);
            let relative_units = int_bits(x.units.relative_antenna_location as int, 1);
            let full_update = flag_bits(x.full_update_flag);
            let radio_reference_id = x.radio_reference_id.encoding();
            let radio_number = x.radio_number.encoding();
            let radio_type = option_encoding(x.radio_type);
            let transmit_state = int_bits(x.transmit_state as int, 2);
            let input_source = x.input_source.encoding();
            let parameter_count = if x.variable_transmitter_parameters.len() == 0 { Seq::empty() } else { uvint8_of(x.variable_transmitter_parameters.len() as u8).encoding() };
            let antenna_location = option_encoding(x.antenna_location);
            let relative_antenna_location = option_encoding(x.relative_antenna_location);
            let pattern_type = match x.antenna_pattern_type { Some(t) => int_bits(t as int, 3), None => Seq::empty() };
            let pattern_length = match x.antenna_pattern { Some(p) => int_bits(p.encoding().len() as int, 10), None => Seq::empty() };
            let frequency = option_encoding(x.frequency);
            let bandwidth = option_encoding(x.transmit_frequency_bandwidth);
            let power = option_encoding(x.power);
            let spread_spectrum = match x.modulation_type { Some(m) => int_bits(m.spread_spectrum as int, 4), None => Seq::empty() };
            let major_modulation = match x.modulation_type { Some(m) => int_bits(m.major_modulation as int, 4), None => Seq::empty() };
            let detail = match x.modulation_type { Some(m) => int_bits(m.detail as int, 4), None => Seq::empty() };
            let radio_system = match x.modulation_type { Some(m) => int_bits(m.radio_system as int, 4), None => Seq::empty() };
            let crypto_system = match x.crypto_system { Some(c) => int_bits(c as int, 4), None => Seq::empty() };
            let crypto_key_id = match x.crypto_key_id { Some(k) => int_bits(k as int, 16), None => Seq::empty() };
            let parameter_octet_count = if x.modulation_parameters.len() == 0 { Seq::empty() } else { int_bits(x.modulation_parameters.len() as int, 8) };
            let modulation_parameters = if x.modulation_parameters.len() == 0 { Seq::empty() } else { seq_encoding(x.modulation_parameters@) };
            let antenna_pattern = option_encoding(x.antenna_pattern);
            let variable_parameters = seq_encoding(x.variable_transmitter_parameters@);
            let o0 = cursor;
            let o1 = o0 + fields_present.len();
            let o2 = o1 + altitude_units.len();
            let o3 = o2 + relative_units.len();
            let o4 = o3 + full_update.len();
            let o5 = o4 + radio_reference_id.len();
            let o6 = o5 + radio_number.len();
            let o7 = o6 + radio_type.len();
            let o8 = o7 + transmit_state.len();
            let o9 = o8 + input_source.len();
            let o10 = o9 + parameter_count.len();
            let o11 = o10 + antenna_location.len();
            let o12 = o11 + relative_antenna_location.len();
            let o13 = o12 + pattern_type.len();
            let o14 = o13 + pattern_length.len();
            let o15 = o14 + frequency.len();
            let o16 = o15 + bandwidth.len();
            let o17 = o16 + power.len();
            let o18 = o17 + spread_spectrum.len();
            let o19 = o18 + major_modulation.len();
            let o20 = o19 + detail.len();
            let o21 = o20 + radio_system.len();
            let o22 = o21 + crypto_system.len();
            let o23 = o22 + crypto_key_id.len();
            let o24 = o23 + parameter_octet_count.len();
            let o25 = o24 + modulation_parameters.len();
            let o26 = o25 + antenna_pattern.len();
            &&& written_at(w, o23, parameter_octet_count)
            &&& written_at(w, o24, modulation_parameters)
            &&& written_at(w, o25, antenna_pattern)
            &&& written_at(w, o26, variable_parameters)
        }),
{
    let e = x.encoding();
    let block0 = x.head_encoding();
    let block1 = x.middle_encoding();
    let block2 = x.tail_encoding();
    lemma_transmitter_layout_part0(x);
    lemma_transmitter_layout_part1(x);
    lemma_transmitter_layout_part2(x);
    let fields_present = int_bits(x.fields_present as int, 8);
    let altitude_units = int_bits(x.units.world_location_altitude as int, 1);
    let relative_units = int_bits(x.units.relative_antenna_location as int, 1);
    let full_update = flag_bits(x.full_update_flag);
    let radio_reference_id = x.radio_reference_id.encoding();
    let radio_number = x.radio_number.encoding();
    let radio_type = option_encoding(x.radio_type);
    let transmit_state = int_bits(x.transmit_state as int, 2);
    let input_source = x.input_source.encoding();
    let parameter_count = if x.variable_transmitter_parameters.len() == 0 { Seq::empty() } else { uvint8_of(x.variable_transmitter_parameters.len() as u8).encoding() };
    let antenna_location = option_encoding(x.antenna_location);
    let relative_antenna_location = option_encoding(x.relative_antenna_location);
    let pattern_type = match x.antenna_pattern_type { Some(t) => int_bits(t as int, 3), None => Seq::empty() };
    let pattern_length = match x.antenna_pattern { Some(p) => int_bits(p.encoding().len() as int, 10), None => Seq::empty() };
    let frequency = option_encoding(x.frequency);
    let bandwidth = option_encoding(x.transmit_frequency_bandwidth);
    let power = option_encoding(x.power);
    let spread_spectrum = match x.modulation_type { Some(m) => int_bits(m.spread_spectrum as int, 4), None => Seq::empty() };
    let major_modulation = match x.modulation_type { Some(m) => int_bits(m.major_modulation as int, 4), None => Seq::empty() };
    let detail = match x.modulation_type { Some(m) => int_bits(m.detail as int, 4), None => Seq::empty() };
    let radio_system = match x.modulation_type { Some(m) => int_bits(m.radio_system as int, 4), None => Seq::empty() };
    let crypto_system = match x.crypto_system { Some(c) => int_bits(c as int, 4), None => Seq::empty() };
    let crypto_key_id = match x.crypto_key_id { Some(k) => int_bits(k as int, 16), None => Seq::empty() };
    let parameter_octet_count = if x.modulation_parameters.len() == 0 { Seq::empty() } else { int_bits(x.modulation_parameters.len() as int, 8) };
    let modulation_parameters = if x.modulation_parameters.len() == 0 { Seq::empty() } else { seq_encoding(x.modulation_parameters@) };
    let antenna_pattern = option_encoding(x.antenna_pattern);
    let variable_parameters = seq_encoding(x.variable_transmitter_parameters@);
    assert(e == block0 + block1 + block2);
    assert(e.subrange(0, e.len() as int) =~= e);
    lemma_subrange_split(e, 0, block0 + block1, block2);
    lemma_subrange_split(e, 0, block0, block1);
    assert(block0.len() == fields_present.len() + altitude_units.len() + relative_units.len() + full_update.len() + radio_reference_id.len() + radio_number.len() + radio_type.len() + transmit_state.len() + input_source.len());
    assert(block1.len() == parameter_count.len() + antenna_location.len() + relative_antenna_location.len() + pattern_type.len() + pattern_length.len() + frequency.len() + bandwidth.len() + power.len());
    assert(block2.len() == spread_spectrum.len() + major_modulation.len() + detail.len() + radio_system.len() + crypto_system.len() + crypto_key_id.len() + parameter_octet_count.len() + modulation_parameters.len() + antenna_pattern.len() + variable_parameters.len());
    let a: int = (block0.len() + block1.len()) as int;
    let c1 = spread_spectrum;
    let c2 = c1 + major_modulation;
    let c3 = c2 + detail;
    let c4 = c3 + radio_system;
    let c5 = c4 + crypto_system;
    let c6 = c5 + crypto_key_id;
    let c7 = c6 + parameter_octet_count;
    let c8 = c7 + modulation_parameters;
    let c9 = c8 + antenna_pattern;
    let c10 = c9 + variable_parameters;
    assert(block2.subrange(0, block2.len() as int) =~= block2);
    lemma_subrange_split(block2, 0, c9, variable_parameters);
    lemma_subrange_split(block2, 0, c8, antenna_pattern);
    lemma_subrange_split(block2, 0, c7, modulation_parameters);
    lemma_subrange_split(block2, 0, c6, parameter_octet_count);
    lemma_subrange_split(block2, 0, c5, crypto_key_id);
    lemma_subrange_split(block2, 0, c4, crypto_system);
    lemma_subrange_split(block2, 0, c3, radio_system);
    lemma_subrange_split(block2, 0, c2, detail);
    lemma_subrange_split(block2, 0, c1, major_modulation);
    lemma_subrange_within(e, a, block2, c6.len() as int, parameter_octet_count);
    lemma_written_part(bits, cursor, e, a + c6.len() as int, parameter_octet_count);
    lemma_subrange_within(e, a, block2, c7.len() as int, modulation_parameters);
    lemma_written_part(bits, cursor, e, a + c7.len() as int, modulation_parameters);
    lemma_subrange_within(e, a, block2, c8.len() as int, antenna_pattern);
    lemma_written_part(bits, cursor, e, a + c8.len() as int, antenna_pattern);
    lemma_subrange_within(e, a, block2, c9.len() as int, variable_parameters);
    lemma_written_part(bits, cursor, e, a + c9.len() as int, variable_parameters);
}

/// A written Transmitter body is exactly as long as its fields together, in
/// the order that `lemma_transmitter_layout_1` gives.
#[verifier::rlimit(80)]
pub proof fn lemma_transmitter_length(x: Transmitter)
    ensures
        ({
            let fields_present = int_bits(x.fields_present as int, 8);
            let altitude_units = int_bits(x.units.world_location_altitude as int, 1);
            let relative_units = int_bits(x.units.relative_antenna_location as int, 1);
            let full_update = flag_bits(x.full_update_flag);
            let radio_reference_id = x.radio_reference_id.encoding();
            let radio_number = x.radio_number.encoding();
            let radio_type = option_encoding(x.radio_type);
            let transmit_state = int_bits(x.transmit_state as int, 2);
            let input_source = x.input_source.encoding();
            let parameter_count = if x.variable_transmitter_parameters.len() == 0 { Seq::empty() } else { uvint8_of(x.variable_transmitter_parameters.len() as u8).encoding() };
            let antenna_location = option_encoding(x.antenna_location);
            let relative_antenna_location = option_encoding(x.relative_antenna_location);
            let pattern_type = match x.antenna_pattern_type { Some(t) => int_bits(t as int, 3), None => Seq::empty() };
            let pattern_length = match x.antenna_pattern { Some(p) => int_bits(p.encoding().len() as int, 10), None => Seq::empty() };
            let frequency = option_encoding(x.frequency);
            let bandwidth = option_encoding(x.transmit_frequency_bandwidth);
            let power = option_encoding(x.power);
            let spread_spectrum = match x.modulation_type { Some(m) => int_bits(m.spread_spectrum as int, 4), None => Seq::empty() };
            let major_modulation = match x.modulation_type { Some(m) => int_bits(m.major_modulation as int, 4), None => Seq::empty() };
            let detail = match x.modulation_type { Some(m) => int_bits(m.detail as int, 4), None => Seq::empty() };
            let radio_system = match x.modulation_type { Some(m) => int_bits(m.radio_system as int, 4), None => Seq::empty() };
            let crypto_system = match x.crypto_system { Some(c) => int_bits(c as int, 4), None => Seq::empty() };
            let crypto_key_id = match x.crypto_key_id { Some(k) => int_bits(k as int, 16), None => Seq::empty() };
            let parameter_octet_count = if x.modulation_parameters.len() == 0 { Seq::empty() } else { int_bits(x.modulation_parameters.len() as int, 8) };
            let modulation_parameters = if x.modulation_parameters.len() == 0 { Seq::empty() } else { seq_encoding(x.modulation_parameters@) };
            let antenna_pattern = option_encoding(x.antenna_pattern);
            let variable_parameters = seq_encoding(x.variable_transmitter_parameters@);
            x.encoding().len() == fields_present.len() + altitude_units.len() + relative_units.len() + full_update.len() + radio_reference_id.len() + radio_number.len() + radio_type.len() + transmit_state.len() + input_source.len() + parameter_count.len() + antenna_location.len() + relative_antenna_location.len() + pattern_type.len() + pattern_length.len() + frequency.len() + bandwidth.len() + power.len() + spread_spectrum.len() + major_modulation.len() + detail.len() + radio_system.len() + crypto_system.len() + crypto_key_id.len() + parameter_octet_count.len() + modulation_parameters.len() + antenna_pattern.len() + variable_parameters.len()
        }),
{
    let block0 = x.head_encoding();
    let block1 = x.middle_encoding();
    let block2 = x.tail_encoding();
    assert(x.encoding() == block0 + block1 + block2);
    assert(x.encoding().len() == block0.len() + block1.len() + block2.len());
    let fields_present = int_bits(x.fields_present as int, 8);
    let altitude_units = int_bits(x.units.world_location_altitude as int, 1);
    let relative_units = int_bits(x.units.relative_antenna_location as int, 1);
    let full_update = flag_bits(x.full_update_flag);
    let radio_reference_id = x.radio_reference_id.encoding();
    let radio_number = x.radio_number.encoding();
    let radio_type = option_encoding(x.radio_type);
    let transmit_state = int_bits(x.transmit_state as int, 2);
    let input_source = x.input_source.encoding();
    let parameter_count = if x.variable_transmitter_parameters.len() == 0 { Seq::empty() } else { uvint8_of(x.variable_transmitter_parameters.len() as u8).encoding() };
    let antenna_location = option_encoding(x.antenna_location);
    let relative_antenna_location = option_encoding(x.relative_antenna_location);
    let pattern_type = match x.antenna_pattern_type { Some(t) => int_bits(t as int, 3), None => Seq::empty() };
    let pattern_length = match x.antenna_pattern { Some(p) => int_bits(p.encoding().len() as int, 10), None => Seq::empty() };
    let frequency = option_encoding(x.frequency);
    let bandwidth = option_encoding(x.transmit_frequency_bandwidth);
    let power = option_encoding(x.power);
    let spread_spectrum = match x.modulation_type { Some(m) => int_bits(m.spread_spectrum as int, 4), None => Seq::empty() };
    let major_modulation = match x.modulation_type { Some(m) => int_bits(m.major_modulation as int, 4), None => Seq::empty() };
    let detail = match x.modulation_type { Some(m) => int_bits(m.detail as int, 4), None => Seq::empty() };
    let radio_system = match x.modulation_type { Some(m) => int_bits(m.radio_system as int, 4), None => Seq::empty() };
    let crypto_system = match x.crypto_system { Some(c) => int_bits(c as int, 4), None => Seq::empty() };
    let crypto_key_id = match x.crypto_key_id { Some(k) => int_bits(k as int, 16), None => Seq::empty() };
    let parameter_octet_count = if x.modulation_parameters.len() == 0 { Seq::empty() } else { int_bits(x.modulation_parameters.len() as int, 8) };
    let modulation_parameters = if x.modulation_parameters.len() == 0 { Seq::empty() } else { seq_encoding(x.modulation_parameters@) };
    let antenna_pattern = option_encoding(x.antenna_pattern);
    let variable_parameters = seq_encoding(x.variable_transmitter_parameters@);
    assert(block0.len() == fields_present.len() + altitude_units.len() + relative_units.len() + full_update.len() + radio_reference_id.len() + radio_number.len() + radio_type.len() + transmit_state.len() + input_source.len()) by { lemma_transmitter_layout_part0(x); }
    assert(block1.len() == parameter_count.len() + antenna_location.len() + relative_antenna_location.len() + pattern_type.len() + pattern_length.len() + frequency.len() + bandwidth.len() + power.len()) by { lemma_transmitter_layout_part1(x); }
    assert(block2.len() == spread_spectrum.len() + major_modulation.len() + detail.len() + radio_system.len() + crypto_system.len() + crypto_key_id.len() + parameter_octet_count.len() + modulation_parameters.len() + antenna_pattern.len() + variable_parameters.len()) by { lemma_transmitter_layout_part2(x); }
}

/// Where a beam antenna pattern is written, its fields stand in this order:
/// beam direction psi, theta and phi, azimuth and elevation beamwidth (13 bits
/// each), reference system (2 bits), Ez and Ex (16 bits each), phase (13
/// bits).
pub proof fn lemma_beam_antenna_pattern_layout(x: BeamAntennaPattern, bits: Seq<bool>, cursor: int)
    requires
        0 <= cursor,
        cursor + x.encoding().len() <= bits.len(),
    ensures
        ({
            let w = splice(bits, cursor, x.encoding());
            let psi = int_bits(x.beam_direction_psi as int, 13);
            let theta = int_bits(x.beam_direction_theta as int, 13);
            let phi = int_bits(x.beam_direction_phi as int, 13);
            let az_beamwidth = int_bits(x.az_beamwidth as int, 13);
            let el_beamwidth = int_bits(x.el_beamwidth as int, 13);
            let reference_system = int_bits(x.reference_system as int, 2);
            let e_z = int_bits(x.e_z as int, 16);
            let e_x = int_bits(x.e_x as int, 16);
            let phase = int_bits(x.phase as int, 13);
            let o0 = cursor;
            let o1 = o0 + psi.len();
            let o2 = o1 + theta.len();
            let o3 = o2 + phi.len();
            let o4 = o3 + az_beamwidth.len();
            let o5 = o4 + el_beamwidth.len();
            let o6 = o5 + reference_system.len();
            let o7 = o6 + e_z.len();
            let o8 = o7 + e_x.len();
            &&& x.encoding().len() == psi.len() + theta.len() + phi.len() + az_beamwidth.len() + el_beamwidth.len() + reference_system.len() + e_z.len() + e_x.len() + phase.len()
            &&& written_at(w, o0, psi)
            &&& written_at(w, o1, theta)
            &&& written_at(w, o2, phi)
            &&& written_at(w, o3, az_beamwidth)
            &&& written_at(w, o4, el_beamwidth)
            &&& written_at(w, o5, reference_system)
            &&& written_at(w, o6, e_z)
            &&& written_at(w, o7, e_x)
            &&& written_at(w, o8, phase)
        }),
{
    let e = x.encoding();
    let w = splice(bits, cursor, e);
    let psi = int_bits(x.beam_direction_psi as int, 13);
    let theta = int_bits(x.beam_direction_theta as int, 13);
    let phi = int_bits(x.beam_direction_phi as int, 13);
    let az_beamwidth = int_bits(x.az_beamwidth as int, 13);
    let el_beamwidth = int_bits(x.el_beamwidth as int, 13);
    let reference_system = int_bits(x.reference_system as int, 2);
    let e_z = int_bits(x.e_z as int, 16);
    let e_x = int_bits(x.e_x as int, 16);
    let phase = int_bits(x.phase as int, 13);
    let o0 = 0int;
    let o1 = o0 + psi.len();
    let o2 = o1 + theta.len();
    let o3 = o2 + phi.len();
    let o4 = o3 + az_beamwidth.len();
    let o5 = o4 + el_beamwidth.len();
    let o6 = o5 + reference_system.len();
    let o7 = o6 + e_z.len();
    let o8 = o7 + e_x.len();
    assert(e.subrange(o0, o0 + psi.len()) =~= psi);
    lemma_written_part(bits, cursor, e, o0, psi);
    assert(e.subrange(o1, o1 + theta.len()) =~= theta);
    lemma_written_part(bits, cursor, e, o1, theta);
    assert(e.subrange(o2, o2 + phi.len()) =~= phi);
    lemma_written_part(bits, cursor, e, o2, phi);
    assert(e.subrange(o3, o3 + az_beamwidth.len()) =~= az_beamwidth);
    lemma_written_part(bits, cursor, e, o3, az_beamwidth);
    assert(e.subrange(o4, o4 + el_beamwidth.len()) =~= el_beamwidth);
    lemma_written_part(bits, cursor, e, o4, el_beamwidth);
    assert(e.subrange(o5, o5 + reference_system.len()) =~= reference_system);
    lemma_written_part(bits, cursor, e, o5, reference_system);
    assert(e.subrange(o6, o6 + e_z.len()) =~= e_z);
    lemma_written_part(bits, cursor, e, o6, e_z);
    assert(e.subrange(o7, o7 + e_x.len()) =~= e_x);
    lemma_written_part(bits, cursor, e, o7, e_x);
    assert(e.subrange(o8, o8 + phase.len()) =~= phase);
    lemma_written_part(bits, cursor, e, o8, phase);
}

} // verus!
