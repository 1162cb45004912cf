use vstd::prelude::*;
use crate::bits::{lemma_written_part, splice, written_at};
use crate::bits::{int_bits, lemma_int_bits_len, lemma_splice_append};
use crate::constants::{FOUR_BITS, ONE_BIT, SIXTEEN_BITS};
use crate::designator::model::{Designator, DesignatorSystemName};
use crate::writing::{
    BitBuffer, SerializeCdis, buffer_bits, flag_bits, option_bits, option_encoding,
    option_serializable, serialize_when_present, write_bits_when_present, write_flag,
    write_integer_bits,
};

verus! {

broadcast use lemma_int_bits_len;

impl SerializeCdis for DesignatorSystemName {
    open spec fn serializable(&self) -> bool {
        true
    }

    open spec fn encoding(&self) -> Seq<bool> {
        int_bits(self.code as int, 16)
    }

    fn serialize(&self, buf: &mut BitBuffer, cursor: usize) -> (next: usize) {
        write_integer_bits(buf, cursor, SIXTEEN_BITS, self.code as u64)
    }
}

impl Designator {
    /// The dead reckoning algorithm, as an optional 64-bit value.
    pub open spec fn dr_algorithm_value(&self) -> Option<u64> {
        match self.dr_algorithm {
            Some(algo) => Some(algo as u64),
            None => None,
        }
    }
}

impl SerializeCdis for Designator {
    open spec fn serializable(&self) -> bool {
        &&& 1 <= self.fields_present_length <= 16
        &&& self.designating_entity_id.serializable()
        &&& option_serializable(self.code_name)
        &&& option_serializable(self.designated_entity_id)
        &&& option_serializable(self.designator_code)
        &&& option_serializable(self.designator_power)
        &&& option_serializable(self.designator_wavelength)
        &&& option_serializable(self.spot_wrt_designated_entity)
        &&& option_serializable(self.designator_spot_location)
        &&& option_serializable(self.dr_entity_linear_acceleration)
    }

    /// Fields-present flags, the two units flags and the full update flag (a
    /// bit each), the designating entity id, then each optional field that is
    /// present, the dead reckoning algorithm in 4 bits.
    open spec fn encoding(&self) -> Seq<bool> {
        int_bits(self.fields_present as int, self.fields_present_length as nat)
            + int_bits(self.units.location_wrt_entity_units as int, 1)
            + int_bits(self.units.world_location_altitude as int, 1)
            + flag_bits(self.full_update_flag)
            + self.designating_entity_id.encoding()
            + option_encoding(self.code_name)
            + option_encoding(self.designated_entity_id)
            + option_encoding(self.designator_code)
            + option_encoding(self.designator_power)
            + option_encoding(self.designator_wavelength)
            + option_encoding(self.spot_wrt_designated_entity)
            + option_encoding(self.designator_spot_location)
            + option_bits(self.dr_algorithm_value(), 4)
            + option_encoding(self.dr_entity_linear_acceleration)
    }

    fn serialize(&self, buf: &mut BitBuffer, cursor: usize) -> (next: usize) {
        let ghost b0 = buffer_bits(*buf);
        let ghost e1 = int_bits(self.fields_present as int, self.fields_present_length as nat);
        let ghost e2 = int_bits(self.units.location_wrt_entity_units as int, 1);
        let ghost e3 = int_bits(self.units.world_location_altitude as int, 1);
        let ghost e4 = flag_bits(self.full_update_flag);
        let ghost e5 = self.designating_entity_id.encoding();
        let ghost e6 = option_encoding(self.code_name);
        let ghost e7 = option_encoding(self.designated_entity_id);
        let ghost e8 = option_encoding(self.designator_code);
        let ghost e9 = option_encoding(self.designator_power);
        let ghost e10 = option_encoding(self.designator_wavelength);
        let ghost e11 = option_encoding(self.spot_wrt_designated_entity);
        let ghost e12 = option_encoding(self.designator_spot_location);
        let ghost e13 = option_bits(self.dr_algorithm_value(), 4);
        let ghost e14 = option_encoding(self.dr_entity_linear_acceleration);
        let ghost mut acc = e1;
        let c = write_integer_bits(buf, cursor, self.fields_present_length as usize, self.fields_present as u64);
        proof { lemma_splice_append(b0, cursor as int, acc, e2); acc = acc + e2; }
        let c = write_integer_bits(buf, c, ONE_BIT, self.units.location_wrt_entity_units as u64);
        proof { lemma_splice_append(b0, cursor as int, acc, e3); acc = acc + e3; }
        let c = write_integer_bits(buf, c, ONE_BIT, self.units.world_location_altitude as u64);
        proof { lemma_int_bits_len(if self.full_update_flag { 1int } else { 0int }, 1); }
        proof { lemma_splice_append(b0, cursor as int, acc, e4); acc = acc + e4; }
        let c = write_flag(buf, c, self.full_update_flag);
        proof { lemma_splice_append(b0, cursor as int, acc, e5); acc = acc + e5; }
        let c = self.designating_entity_id.serialize(buf, c);
        proof { lemma_splice_append(b0, cursor as int, acc, e6); acc = acc + e6; }
        let c = serialize_when_present(&self.code_name, buf, c);
        proof { lemma_splice_append(b0, cursor as int, acc, e7); acc = acc + e7; }
        let c = serialize_when_present(&self.designated_entity_id, buf, c);
        proof { lemma_splice_append(b0, cursor as int, acc, e8); acc = acc + e8; }
        let c = serialize_when_present(&self.designator_code, buf, c);
        proof { lemma_splice_append(b0, cursor as int, acc, e9); acc = acc + e9; }
        let c = serialize_when_present(&self.designator_power, buf, c);
        proof { lemma_splice_append(b0, cursor as int, acc, e10); acc = acc + e10; }
        let c = serialize_when_present(&self.designator_wavelength, buf, c);
        proof { lemma_splice_append(b0, cursor as int, acc, e11); acc = acc + e11; }
        let c = serialize_when_present(&self.spot_wrt_designated_entity, buf, c);
        proof { lemma_splice_append(b0, cursor as int, acc, e12); acc = acc + e12; }
        let c = serialize_when_present(&self.designator_spot_location, buf, c);
        let algo = match self.dr_algorithm {
            Some(algo) => Some(algo as u64),
            None => None,
        };
        proof { lemma_splice_append(b0, cursor as int, acc, e13); acc = acc + e13; }
        let c = write_bits_when_present(buf, c, FOUR_BITS, algo);
        proof { lemma_splice_append(b0, cursor as int, acc, e14); acc = acc + e14; }
        serialize_when_present(&self.dr_entity_linear_acceleration, buf, c)
    }
}

/// Where a Designator body is written, its fields stand in the C-DIS order,
/// each right after the one before: the fields-present flags, the two units
/// flags and the full update flag (a bit each), the designating entity id,
/// then the code name, designated entity id, designator code, power,
/// wavelength, spot with respect to the designated entity, spot location,
/// dead reckoning algorithm (4 bits) and linear acceleration, each where it is
/// present (and taking no bits where it is not).
#[verifier::rlimit(80)]
pub proof fn lemma_designator_layout(x: Designator, bits: Seq<bool>, cursor: int)
    requires
        0 <= cursor,
        cursor + x.encoding().len() <= bits.len(),
    ensures
        ({
            let w = splice(bits, cursor, x.encoding());
            let flags = int_bits(x.fields_present as int, x.fields_present_length as nat);
            let location_units = int_bits(x.units.location_wrt_entity_units as int, 1);
            let altitude_units = int_bits(x.units.world_location_altitude as int, 1);
            let full_update = flag_bits(x.full_update_flag);
            let designating_id = x.designating_entity_id.encoding();
            let code_name = option_encoding(x.code_name);
            let designated_id = option_encoding(x.designated_entity_id);
            let code = option_encoding(x.designator_code);
            let power = option_encoding(x.designator_power);
            let wavelength = option_encoding(x.designator_wavelength);
            let spot_wrt = option_encoding(x.spot_wrt_designated_entity);
            let spot_location = option_encoding(x.designator_spot_location);
            let dr_algorithm = option_bits(x.dr_algorithm_value(), 4);
            let acceleration = option_encoding(x.dr_entity_linear_acceleration);
            let o0 = cursor;
            let o1 = o0 + flags.len();
            let o2 = o1 + location_units.len();
            let o3 = o2 + altitude_units.len();
            let o4 = o3 + full_update.len();
            let o5 = o4 + designating_id.len();
            let o6 = o5 + code_name.len();
            let o7 = o6 + designated_id.len();
            let o8 = o7 + code.len();
            let o9 = o8 + power.len();
            let o10 = o9 + wavelength.len();
            let o11 = o10 + spot_wrt.len();
            let o12 = o11 + spot_location.len();
            let o13 = o12 + dr_algorithm.len();
            &&& x.encoding().len() == flags.len() + location_units.len() + altitude_units.len() + full_update.len() + designating_id.len() + code_name.len() + designated_id.len() + code.len() + power.len() + wavelength.len() + spot_wrt.len() + spot_location.len() + dr_algorithm.len() + acceleration.len()
            &&& written_at(w, o0, flags)
            &&& written_at(w, o1, location_units)
            &&& written_at(w, o2, altitude_units)
            &&& written_at(w, o3, full_update)
            &&& written_at(w, o4, designating_id)
            &&& written_at(w, o5, code_name)
            &&& written_at(w, o6, designated_id)
            &&& written_at(w, o7, code)
            &&& written_at(w, o8, power)
            &&& written_at(w, o9, wavelength)
            &&& written_at(w, o10, spot_wrt)
            &&& written_at(w, o11, spot_location)
            &&& written_at(w, o12, dr_algorithm)
            &&& written_at(w, o13, acceleration)
        }),
{
    let e = x.encoding();
    let w = splice(bits, cursor, e);
    let flags = int_bits(x.fields_present as int, x.fields_present_length as nat);
    let location_units = int_bits(x.units.location_wrt_entity_units as int, 1);
    let altitude_units = int_bits(x.units.world_location_altitude as int, 1);
    let full_update = flag_bits(x.full_update_flag);
    let designating_id = x.designating_entity_id.encoding();
    let code_name = option_encoding(x.code_name);
    let designated_id = option_encoding(x.designated_entity_id);
    let code = option_encoding(x.designator_code);
    let power = option_encoding(x.designator_power);
    let wavelength = option_encoding(x.designator_wavelength);
    let spot_wrt = option_encoding(x.spot_wrt_designated_entity);
    let spot_location = option_encoding(x.designator_spot_location);
    let dr_algorithm = option_bits(x.dr_algorithm_value(), 4);
    let acceleration = option_encoding(x.dr_entity_linear_acceleration);
    let o0 = 0int;
    let o1 = o0 + flags.len();
    let o2 = o1 + location_units.len();
    let o3 = o2 + altitude_units.len();
    let o4 = o3 + full_update.len();
    let o5 = o4 + designating_id.len();
    let o6 = o5 + code_name.len();
    let o7 = o6 + designated_id.len();
    let o8 = o7 + code.len();
    let o9 = o8 + power.len();
    let o10 = o9 + wavelength.len();
    let o11 = o10 + spot_wrt.len();
    let o12 = o11 + spot_location.len();
    let o13 = o12 + dr_algorithm.len();
    assert(e.subrange(o0, o0 + flags.len()) =~= flags);
    lemma_written_part(bits, cursor, e, o0, flags);
    assert(e.subrange(o1, o1 + location_units.len()) =~= location_units);
    lemma_written_part(bits, cursor, e, o1, location_units);
    assert(e.subrange(o2, o2 + altitude_units.len()) =~= altitude_units);
    lemma_written_part(bits, cursor, e, o2, altitude_units);
    assert(e.subrange(o3, o3 + full_update.len()) =~= full_update);
    lemma_written_part(bits, cursor, e, o3, full_update);
    assert(e.subrange(o4, o4 + designating_id.len()) =~= designating_id);
    lemma_written_part(bits, cursor, e, o4, designating_id);
    assert(e.subrange(o5, o5 + code_name.len()) =~= code_name);
    lemma_written_part(bits, cursor, e, o5, code_name);
    assert(e.subrange(o6, o6 + designated_id.len()) =~= designated_id);
    lemma_written_part(bits, cursor, e, o6, designated_id);
    assert(e.subrange(o7, o7 + code.len()) =~= code);
    lemma_written_part(bits, cursor, e, o7, code);
    assert(e.subrange(o8, o8 + power.len()) =~= power);
    lemma_written_part(bits, cursor, e, o8, power);
    assert(e.subrange(o9, o9 + wavelength.len()) =~= wavelength);
    lemma_written_part(bits, cursor, e, o9, wavelength);
    assert(e.subrange(o10, o10 + spot_wrt.len()) =~= spot_wrt);
    lemma_written_part(bits, cursor, e, o10, spot_wrt);
    assert(e.subrange(o11, o11 + spot_location.len()) =~= spot_location);
    lemma_written_part(bits, cursor, e, o11, spot_location);
    assert(e.subrange(o12, o12 + dr_algorithm.len()) =~= dr_algorithm);
    lemma_written_part(bits, cursor, e, o12, dr_algorithm);
    assert(e.subrange(o13, o13 + acceleration.len()) =~= acceleration);
    lemma_written_part(bits, cursor, e, o13, acceleration);
}

} // verus!
