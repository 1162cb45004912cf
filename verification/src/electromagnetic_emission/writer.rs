use vstd::prelude::*;

use crate::bits::{int_bits, lemma_int_bits_len, lemma_splice_append, lemma_subrange_split, lemma_written_four, lemma_written_part, splice, written_at};
use crate::constants::{EIGHT_BITS, FIVE_BITS, FOUR_BITS, ONE_BIT, SIX_BITS, SIXTEEN_BITS};
use crate::electromagnetic_emission::model::{
    ElectromagneticEmission, EmitterBeam, EmitterSystem, FundamentalParameter, SiteAppPair,
    TrackJam,
};
use crate::types::{VarInt, uvint8_of};
use crate::writing::{
    BitBuffer, SerializeCdis, buffer_bits, flag_bits, option_bits, option_encoding,
    option_serializable, seq_encoding, seq_serializable, serialize_all, serialize_when_present,
    write_bits_when_present, write_flag, write_integer_bits,
};

verus! {

broadcast use lemma_int_bits_len;

impl SerializeCdis for FundamentalParameter {
    open spec fn serializable(&self) -> bool {
        &&& self.frequency.serializable()
        &&& self.frequency_range.serializable()
        &&& self.prf.serializable()
        &&& self.pulse_width.serializable()
    }

    /// Frequency, frequency range, ERP (8 bits), PRF, pulse width.
    open spec fn encoding(&self) -> Seq<bool> {
        self.frequency.encoding() + self.frequency_range.encoding() + int_bits(self.erp as int, 8)
            + self.prf.encoding() + self.pulse_width.encoding()
    }

    fn serialize(&self, buf: &mut BitBuffer, cursor: usize) -> (next: usize) {
        let ghost b0 = buffer_bits(*buf);
        let ghost e1 = self.frequency.encoding();
        let ghost e2 = self.frequency_range.encoding();
        let ghost e3 = int_bits(self.erp as int, 8);
        let ghost e4 = self.prf.encoding();
        let ghost e5 = self.pulse_width.encoding();
        proof { lemma_splice_append(b0, cursor as int, e1, e2); }
        let c = self.frequency.serialize(buf, cursor);
        let c = self.frequency_range.serialize(buf, c);
        proof { lemma_splice_append(b0, cursor as int, e1 + e2, e3); }
        let c = write_integer_bits(buf, c, EIGHT_BITS, self.erp as u64);
        proof { lemma_splice_append(b0, cursor as int, e1 + e2 + e3, e4); }
        let c = self.prf.serialize(buf, c);
        proof { lemma_splice_append(b0, cursor as int, e1 + e2 + e3 + e4, e5); }
        self.pulse_width.serialize(buf, c)
    }
}

impl SerializeCdis for SiteAppPair {
    open spec fn serializable(&self) -> bool {
        self.site.serializable() && self.application.serializable()
    }

    open spec fn encoding(&self) -> Seq<bool> {
        self.site.encoding() + self.application.encoding()
    }

    fn serialize(&self, buf: &mut BitBuffer, cursor: usize) -> (next: usize) {
        let ghost b0 = buffer_bits(*buf);
        proof { lemma_splice_append(b0, cursor as int, self.site.encoding(), self.application.encoding()); }
        let c = self.site.serialize(buf, cursor);
        self.application.serialize(buf, c)
    }
}

impl TrackJam {
    /// Emitter and beam numbers are written only when both are present.
    pub open spec fn numbers_present(&self) -> bool {
        self.beam_number is Some && self.emitter_number is Some
    }
}

impl SerializeCdis for TrackJam {
    open spec fn serializable(&self) -> bool {
        &&& self.entity_id.serializable()
        &&& option_serializable(self.emitter_number)
        &&& option_serializable(self.beam_number)
    }

    /// Site-application pair index (6 bits), entity id, then the emitter and
    /// beam numbers when both are present.
    open spec fn encoding(&self) -> Seq<bool> {
        int_bits(self.site_app_pair_index as int, 6) + self.entity_id.encoding()
            + if self.numbers_present() {
                option_encoding(self.emitter_number) + option_encoding(self.beam_number)
            } else {
                Seq::empty()
            }
    }

    fn serialize(&self, buf: &mut BitBuffer, cursor: usize) -> (next: usize) {
        let ghost b0 = buffer_bits(*buf);
        let ghost e1 = int_bits(self.site_app_pair_index as int, 6);
        let ghost e2 = self.entity_id.encoding();
        let ghost e3 = option_encoding(self.emitter_number);
        let ghost e4 = option_encoding(self.beam_number);
        let c = write_integer_bits(buf, cursor, SIX_BITS, self.site_app_pair_index as u64);
        proof { lemma_splice_append(b0, cursor as int, e1, e2); }
        let c = self.entity_id.serialize(buf, c);
        if self.beam_number.is_some() && self.emitter_number.is_some() {
            proof {
                lemma_splice_append(b0, cursor as int, e1 + e2, e3);
                lemma_splice_append(b0, cursor as int, e1 + e2 + e3, e4);
                assert(e1 + e2 + e3 + e4 =~= self.encoding());
            }
            let c = serialize_when_present(&self.emitter_number, buf, c);
            serialize_when_present(&self.beam_number, buf, c)
        } else {
            proof { assert(e1 + e2 =~= self.encoding()); }
            c
        }
    }
}

impl EmitterBeam {
    /// The jamming technique is written only when all four of its parts are present.
    pub open spec fn jamming_technique_present(&self) -> bool {
        &&& self.jamming_technique_kind is Some
        &&& self.jamming_technique_category is Some
        &&& self.jamming_technique_subcategory is Some
        &&& self.jamming_technique_specific is Some
    }

    /// The jammer track flag: there are track/jam records and each has both
    /// its emitter and its beam number.
    pub open spec fn track_jam_flag(&self) -> bool {
        &&& self.track_jam.len() > 0
        &&& forall|i: int| 0 <= i < self.track_jam.len() ==> #[trigger] self.track_jam@[i].numbers_present()
    }

    pub open spec fn fundamental_params_index_value(&self) -> Option<u64> {
        match self.fundamental_params_index {
            Some(i) => Some(i as u64),
            None => None,
        }
    }

    pub open spec fn beam_data_index_value(&self) -> Option<u64> {
        match self.beam_data_index {
            Some(i) => Some(i as u64),
            None => None,
        }
    }

    /// The bits of the jamming technique: its four parts when all are present.
    pub open spec fn jamming_technique_encoding(&self) -> Seq<bool> {
        if self.jamming_technique_present() {
            option_encoding(self.jamming_technique_kind) + option_encoding(self.jamming_technique_category)
                + option_encoding(self.jamming_technique_subcategory)
                + option_encoding(self.jamming_technique_specific)
        } else {
            Seq::empty()
        }
    }
}

/// Whether every track/jam record has both its emitter and its beam number.
fn all_numbers_present(track_jam: &Vec<TrackJam>) -> (all: bool)
    ensures
        all == forall|i: int| 0 <= i < track_jam.len() ==> #[trigger] track_jam@[i].numbers_present(),
{
    let mut i: usize = 0;
    while i < track_jam.len()
        invariant
            i <= track_jam.len(),
            forall|j: int| 0 <= j < i ==> #[trigger] track_jam@[j].numbers_present(),
        decreases track_jam.len() - i,
    {
        if !(track_jam[i].beam_number.is_some() && track_jam[i].emitter_number.is_some()) {
            assert(!track_jam@[i as int].numbers_present());
            return false;
        }
        i = i + 1;
    }
    true
}

impl SerializeCdis for EmitterBeam {
    open spec fn serializable(&self) -> bool {
        &&& self.beam_id.serializable()
        &&& option_serializable(self.jamming_technique_kind)
        &&& option_serializable(self.jamming_technique_category)
        &&& option_serializable(self.jamming_technique_subcategory)
        &&& option_serializable(self.jamming_technique_specific)
        &&& seq_serializable(self.track_jam@)
    }

    /// Four present flags (fundamental parameters index, beam data index,
    /// jamming technique, jammer track), beam id, beam parameter index
    /// (16 bits), the two indices when present (5 bits each), beam function
    /// (5 bits), number of track/jam records (4 bits), high density track/jam
    /// flag, beam status (1 bit), the jamming technique, the track/jam records.
    open spec fn encoding(&self) -> Seq<bool> {
        flag_bits(self.fundamental_params_index is Some) + flag_bits(self.beam_data_index is Some)
            + flag_bits(self.jamming_technique_present()) + flag_bits(self.track_jam_flag())
            + self.beam_id.encoding() + int_bits(self.beam_parameter_index as int, 16)
            + option_bits(self.fundamental_params_index_value(), 5)
            + option_bits(self.beam_data_index_value(), 5)
            + int_bits(self.beam_function as int, 5) + int_bits(self.track_jam.len() as int, 4)
            + flag_bits(self.high_density_track_jam) + int_bits(self.beam_status as int, 1)
            + self.jamming_technique_encoding() + seq_encoding(self.track_jam@)
    }

    #[verifier::rlimit(80)]
    fn serialize(&self, buf: &mut BitBuffer, cursor: usize) -> (next: usize) {
        let ghost b0 = buffer_bits(*buf);
        let ghost e1 = flag_bits(self.fundamental_params_index is Some);
        let ghost e2 = flag_bits(self.beam_data_index is Some);
        let ghost e3 = flag_bits(self.jamming_technique_present());
        let ghost e4 = flag_bits(self.track_jam_flag());
        let ghost e5 = self.beam_id.encoding();
        let ghost e6 = int_bits(self.beam_parameter_index as int, 16);
        let ghost e7 = option_bits(self.fundamental_params_index_value(), 5);
        let ghost e8 = option_bits(self.beam_data_index_value(), 5);
        let ghost e9 = int_bits(self.beam_function as int, 5);
        let ghost e10 = int_bits(self.track_jam.len() as int, 4);
        let ghost e11 = flag_bits(self.high_density_track_jam);
        let ghost e12 = int_bits(self.beam_status as int, 1);
        let ghost e13 = self.jamming_technique_encoding();
        let ghost e14 = seq_encoding(self.track_jam@);
        proof {
            lemma_int_bits_len(if self.fundamental_params_index is Some { 1int } else { 0int }, 1);
            lemma_int_bits_len(if self.beam_data_index is Some { 1int } else { 0int }, 1);
            lemma_int_bits_len(if self.jamming_technique_present() { 1int } else { 0int }, 1);
            lemma_int_bits_len(if self.track_jam_flag() { 1int } else { 0int }, 1);
            lemma_int_bits_len(if self.high_density_track_jam { 1int } else { 0int }, 1);
        }
        let ghost mut acc = e1;
        let c = write_flag(buf, cursor, self.fundamental_params_index.is_some());
        proof { lemma_splice_append(b0, cursor as int, acc, e2); acc = acc + e2; }
        let c = write_flag(buf, c, self.beam_data_index.is_some());
        let jamming_technique_flag = self.jamming_technique_kind.is_some()
            && self.jamming_technique_category.is_some()
            && self.jamming_technique_subcategory.is_some()
            && self.jamming_technique_specific.is_some();
        proof { lemma_splice_append(b0, cursor as int, acc, e3); acc = acc + e3; }
        let c = write_flag(buf, c, jamming_technique_flag);
        let track_jam_flag = all_numbers_present(&self.track_jam);
        proof { lemma_splice_append(b0, cursor as int, acc, e4); acc = acc + e4; }
        let c = write_flag(buf, c, track_jam_flag && !self.track_jam.is_empty());
        proof { lemma_splice_append(b0, cursor as int, acc, e5); acc = acc + e5; }
        let c = self.beam_id.serialize(buf, c);
        proof { lemma_splice_append(b0, cursor as int, acc, e6); acc = acc + e6; }
        let c = write_integer_bits(buf, c, SIXTEEN_BITS, self.beam_parameter_index as u64);
        let fp_index = match self.fundamental_params_index {
            Some(i) => Some(i as u64),
            None => None,
        };
        proof { lemma_splice_append(b0, cursor as int, acc, e7); acc = acc + e7; }
        let c = write_bits_when_present(buf, c, FIVE_BITS, fp_index);
        let bd_index = match self.beam_data_index {
            Some(i) => Some(i as u64),
            None => None,
        };
        proof { lemma_splice_append(b0, cursor as int, acc, e8); acc = acc + e8; }
        let c = write_bits_when_present(buf, c, FIVE_BITS, bd_index);
        proof { lemma_splice_append(b0, cursor as int, acc, e9); acc = acc + e9; }
        let c = write_integer_bits(buf, c, FIVE_BITS, self.beam_function as u64);
        proof { lemma_splice_append(b0, cursor as int, acc, e10); acc = acc + e10; }
        let c = write_integer_bits(buf, c, FOUR_BITS, self.track_jam.len() as u64);
        proof { lemma_splice_append(b0, cursor as int, acc, e11); acc = acc + e11; }
        let c = write_flag(buf, c, self.high_density_track_jam);
        proof { lemma_splice_append(b0, cursor as int, acc, e12); acc = acc + e12; }
        let c = write_integer_bits(buf, c, ONE_BIT, self.beam_status as u64);
        proof { lemma_splice_append(b0, cursor as int, acc, e13); }
        let c = if jamming_technique_flag {
            let ghost j1 = option_encoding(self.jamming_technique_kind);
            let ghost j2 = option_encoding(self.jamming_technique_category);
            let ghost j3 = option_encoding(self.jamming_technique_subcategory);
            let ghost j4 = option_encoding(self.jamming_technique_specific);
            proof {
                lemma_splice_append(b0, cursor as int, acc, j1);
                lemma_splice_append(b0, cursor as int, acc + j1, j2);
                lemma_splice_append(b0, cursor as int, acc + j1 + j2, j3);
                lemma_splice_append(b0, cursor as int, acc + j1 + j2 + j3, j4);
                assert(acc + j1 + j2 + j3 + j4 =~= acc + e13);
            }
            let c = serialize_when_present(&self.jamming_technique_kind, buf, c);
            let c = serialize_when_present(&self.jamming_technique_category, buf, c);
            let c = serialize_when_present(&self.jamming_technique_subcategory, buf, c);
            serialize_when_present(&self.jamming_technique_specific, buf, c)
        } else {
            proof { assert(acc + e13 =~= acc); }
            c
        };
        proof { acc = acc + e13; lemma_splice_append(b0, cursor as int, acc, e14); acc = acc + e14; }
        serialize_all(&self.track_jam, buf, c)
    }
}

impl EmitterSystem {
    /// The emitter details (name and function) are written only when both are present.
    pub open spec fn details_present(&self) -> bool {
        self.name is Some && self.function is Some
    }

    pub open spec fn details_encoding(&self) -> Seq<bool> {
        if self.details_present() {
            int_bits(self.name.unwrap() as int, 16) + int_bits(self.function.unwrap() as int, 8)
        } else {
            Seq::empty()
        }
    }
}

impl SerializeCdis for EmitterSystem {
    open spec fn serializable(&self) -> bool {
        &&& self.number.serializable()
        &&& option_serializable(self.location_with_respect_to_entity)
        &&& seq_serializable(self.emitter_beams@)
    }

    /// Two present flags (emitter details, location), the number of beams
    /// (5 bits), the emitter name (16 bits) and function (8 bits) when both are
    /// present, the emitter number, the location when present, then the beams.
    open spec fn encoding(&self) -> Seq<bool> {
        flag_bits(self.details_present()) + flag_bits(self.location_with_respect_to_entity is Some)
            + int_bits(self.emitter_beams.len() as u8 as int, 5) + self.details_encoding()
            + self.number.encoding() + option_encoding(self.location_with_respect_to_entity)
            + seq_encoding(self.emitter_beams@)
    }

    fn serialize(&self, buf: &mut BitBuffer, cursor: usize) -> (next: usize) {
        let ghost b0 = buffer_bits(*buf);
        let ghost e1 = flag_bits(self.details_present());
        let ghost e2 = flag_bits(self.location_with_respect_to_entity is Some);
        let ghost e3 = int_bits(self.emitter_beams.len() as u8 as int, 5);
        let ghost e4 = self.details_encoding();
        let ghost e5 = self.number.encoding();
        let ghost e6 = option_encoding(self.location_with_respect_to_entity);
        let ghost e7 = seq_encoding(self.emitter_beams@);
        proof {
            lemma_int_bits_len(if self.details_present() { 1int } else { 0int }, 1);
            lemma_int_bits_len(if self.location_with_respect_to_entity is Some { 1int } else { 0int }, 1);
        }
        let emitter_details_present = self.name.is_some() && self.function.is_some();
        let c = write_flag(buf, cursor, emitter_details_present);
        proof { lemma_splice_append(b0, cursor as int, e1, e2); }
        let c = write_flag(buf, c, self.location_with_respect_to_entity.is_some());
        proof { lemma_splice_append(b0, cursor as int, e1 + e2, e3); }
        let c = write_integer_bits(buf, c, FIVE_BITS, self.emitter_beams.len() as u8 as u64);
        proof { lemma_splice_append(b0, cursor as int, e1 + e2 + e3, e4); }
        let c = if emitter_details_present {
            let name = self.name.unwrap();
            let function = self.function.unwrap();
            proof {
                lemma_splice_append(b0, cursor as int, e1 + e2 + e3, int_bits(name as int, 16));
                lemma_splice_append(b0, cursor as int, e1 + e2 + e3 + int_bits(name as int, 16), int_bits(function as int, 8));
                assert(e1 + e2 + e3 + int_bits(name as int, 16) + int_bits(function as int, 8) =~= e1 + e2 + e3 + e4);
            }
            let c = write_integer_bits(buf, c, SIXTEEN_BITS, name as u64);
            write_integer_bits(buf, c, EIGHT_BITS, function as u64)
        } else {
            proof { assert(e1 + e2 + e3 + e4 =~= e1 + e2 + e3); }
            c
        };
        proof { lemma_splice_append(b0, cursor as int, e1 + e2 + e3 + e4, e5); }
        let c = self.number.serialize(buf, c);
        proof { lemma_splice_append(b0, cursor as int, e1 + e2 + e3 + e4 + e5, e6); }
        let c = serialize_when_present(&self.location_with_respect_to_entity, buf, c);
        proof { lemma_splice_append(b0, cursor as int, e1 + e2 + e3 + e4 + e5 + e6, e7); }
        serialize_all(&self.emitter_beams, buf, c)
    }
}

impl SerializeCdis for ElectromagneticEmission {
    open spec fn serializable(&self) -> bool {
        &&& self.emitting_id.serializable()
        &&& self.event_id.serializable()
        &&& seq_serializable(self.fundamental_params@)
        &&& seq_serializable(self.beam_data@)
        &&& seq_serializable(self.site_app_pairs@)
        &&& seq_serializable(self.emitter_systems@)
    }

    /// Full update flag, the numbers of fundamental parameters (5 bits), beam
    /// data (5 bits) and site-application pairs (6 bits), emitting id, event
    /// id, state update indicator (1 bit), the number of emitter systems as a
    /// UVINT8, then the four lists in that order.
    open spec fn encoding(&self) -> Seq<bool> {
        flag_bits(self.full_update_flag) + int_bits(self.fundamental_params.len() as int, 5)
            + int_bits(self.beam_data.len() as int, 5) + int_bits(self.site_app_pairs.len() as int, 6)
            + self.emitting_id.encoding() + self.event_id.encoding()
            + int_bits(self.state_update_indicator as int, 1)
            + uvint8_of(self.emitter_systems.len() as u8).encoding()
            + seq_encoding(self.fundamental_params@) + seq_encoding(self.beam_data@)
            + seq_encoding(self.site_app_pairs@) + seq_encoding(self.emitter_systems@)
    }

    #[verifier::rlimit(80)]
    fn serialize(&self, buf: &mut BitBuffer, cursor: usize) -> (next: usize) {
        let ghost b0 = buffer_bits(*buf);
        let ghost e1 = flag_bits(self.full_update_flag);
        let ghost e2 = int_bits(self.fundamental_params.len() as int, 5);
        let ghost e3 = int_bits(self.beam_data.len() as int, 5);
        let ghost e4 = int_bits(self.site_app_pairs.len() as int, 6);
        let ghost e5 = self.emitting_id.encoding();
        let ghost e6 = self.event_id.encoding();
        let ghost e7 = int_bits(self.state_update_indicator as int, 1);
        let ghost e8 = uvint8_of(self.emitter_systems.len() as u8).encoding();
        let ghost e9 = seq_encoding(self.fundamental_params@);
        let ghost e10 = seq_encoding(self.beam_data@);
        let ghost e11 = seq_encoding(self.site_app_pairs@);
        let ghost e12 = seq_encoding(self.emitter_systems@);
        proof { lemma_int_bits_len(if self.full_update_flag { 1int } else { 0int }, 1); }
        let ghost mut acc = e1;
        let c = write_flag(buf, cursor, self.full_update_flag);
        proof { lemma_splice_append(b0, cursor as int, acc, e2); acc = acc + e2; }
        let c = write_integer_bits(buf, c, FIVE_BITS, self.fundamental_params.len() as u64);
        proof { lemma_splice_append(b0, cursor as int, acc, e3); acc = acc + e3; }
        let c = write_integer_bits(buf, c, FIVE_BITS, self.beam_data.len() as u64);
        proof { lemma_splice_append(b0, cursor as int, acc, e4); acc = acc + e4; }
        let c = write_integer_bits(buf, c, SIX_BITS, self.site_app_pairs.len() as u64);
        proof { lemma_splice_append(b0, cursor as int, acc, e5); acc = acc + e5; }
        let c = self.emitting_id.serialize(buf, c);
        proof { lemma_splice_append(b0, cursor as int, acc, e6); acc = acc + e6; }
        let c = self.event_id.serialize(buf, c);
        proof { lemma_splice_append(b0, cursor as int, acc, e7); acc = acc + e7; }
        let c = write_integer_bits(buf, c, ONE_BIT, self.state_update_indicator as u64);
        let systems = VarInt::uvint8(self.emitter_systems.len() as u8);
        proof { lemma_splice_append(b0, cursor as int, acc, e8); acc = acc + e8; }
        let c = systems.serialize(buf, c);
        proof { lemma_splice_append(b0, cursor as int, acc, e9); acc = acc + e9; }
        let c = serialize_all(&self.fundamental_params, buf, c);
        proof { lemma_splice_append(b0, cursor as int, acc, e10); acc = acc + e10; }
        let c = serialize_all(&self.beam_data, buf, c);
        proof { lemma_splice_append(b0, cursor as int, acc, e11); acc = acc + e11; }
        let c = serialize_all(&self.site_app_pairs, buf, c);
        proof { lemma_splice_append(b0, cursor as int, acc, e12); acc = acc + e12; }
        serialize_all(&self.emitter_systems, buf, c)
    }
}

/// Where a fundamental parameter is written, its fields stand in this order:
/// the frequency, the frequency range, the ERP in 8 bits, the PRF, then the
/// pulse width, each right after the one before.
pub proof fn lemma_fundamental_parameter_layout(param: FundamentalParameter, bits: Seq<bool>, cursor: int)
    requires
        0 <= cursor,
        cursor + param.encoding().len() <= bits.len(),
    ensures
        ({
            let w = splice(bits, cursor, param.encoding());
            let frequency = param.frequency.encoding();
            let range = param.frequency_range.encoding();
            let prf = param.prf.encoding();
            let pulse_width = param.pulse_width.encoding();
            let o2 = cursor + frequency.len();
            let o3 = o2 + range.len();
            let o4 = o3 + 8;
            let o5 = o4 + prf.len();
            &&& param.encoding().len() == frequency.len() + range.len() + 8 + prf.len() + pulse_width.len()
            &&& written_at(w, cursor, frequency)
            &&& written_at(w, o2, range)
            &&& written_at(w, o3, int_bits(param.erp as int, 8))
            &&& written_at(w, o4, prf)
            &&& written_at(w, o5, pulse_width)
        }),
{
    let e = param.encoding();
    let frequency = param.frequency.encoding();
    let range = param.frequency_range.encoding();
    let erp = int_bits(param.erp as int, 8);
    let prf = param.prf.encoding();
    let pulse_width = param.pulse_width.encoding();
    let o2 = frequency.len() as int;
    let o3 = o2 + range.len();
    let o4 = o3 + 8;
    let o5 = o4 + prf.len();
    assert(e.subrange(0, o2) =~= frequency);
    assert(e.subrange(o2, o3) =~= range);
    assert(e.subrange(o3, o4) =~= erp);
    assert(e.subrange(o4, o5) =~= prf);
    assert(e.subrange(o5, o5 + pulse_width.len()) =~= pulse_width);
    lemma_written_part(bits, cursor, e, 0, frequency);
    lemma_written_part(bits, cursor, e, o2, range);
    lemma_written_part(bits, cursor, e, o3, erp);
    lemma_written_part(bits, cursor, e, o4, prf);
    lemma_written_part(bits, cursor, e, o5, pulse_width);
}

/// Where a site-application pair is written, the site stands first, then the
/// application.
pub proof fn lemma_site_app_pair_layout(x: SiteAppPair, bits: Seq<bool>, cursor: int)
    requires
        0 <= cursor,
        cursor + x.encoding().len() <= bits.len(),
    ensures
        ({
            let w = splice(bits, cursor, x.encoding());
            let site = x.site.encoding();
            let application = x.application.encoding();
            let o0 = cursor;
            let o1 = o0 + site.len();
            &&& x.encoding().len() == site.len() + application.len()
            &&& written_at(w, o0, site)
            &&& written_at(w, o1, application)
        }),
{
    let e = x.encoding();
    let w = splice(bits, cursor, e);
    let site = x.site.encoding();
    let application = x.application.encoding();
    let o0 = 0int;
    let o1 = o0 + site.len();
    assert(e.subrange(o0, o0 + site.len()) =~= site);
    lemma_written_part(bits, cursor, e, o0, site);
    assert(e.subrange(o1, o1 + application.len()) =~= application);
    lemma_written_part(bits, cursor, e, o1, application);
}

/// Where a track/jam record is written, the site-application pair index
/// (6 bits) and the entity id stand first; then, where both are present, the
/// emitter number and after it the beam number; where either is absent,
/// neither is written.
pub proof fn lemma_track_jam_layout(x: TrackJam, bits: Seq<bool>, cursor: int)
    requires
        0 <= cursor,
        cursor + x.encoding().len() <= bits.len(),
    ensures
        ({
            let w = splice(bits, cursor, x.encoding());
            let index = int_bits(x.site_app_pair_index as int, 6);
            let entity_id = x.entity_id.encoding();
            let emitter_number = if x.beam_number is Some && x.emitter_number is Some { option_encoding(x.emitter_number) } else { Seq::empty() };
            let beam_number = if x.beam_number is Some && x.emitter_number is Some { option_encoding(x.beam_number) } else { Seq::empty() };
            let o0 = cursor;
            let o1 = o0 + index.len();
            let o2 = o1 + entity_id.len();
            let o3 = o2 + emitter_number.len();
            &&& x.encoding().len() == index.len() + entity_id.len() + emitter_number.len() + beam_number.len()
            &&& written_at(w, o0, index)
            &&& written_at(w, o1, entity_id)
            &&& written_at(w, o2, emitter_number)
            &&& written_at(w, o3, beam_number)
        }),
{
    let e = x.encoding();
    let w = splice(bits, cursor, e);
    let index = int_bits(x.site_app_pair_index as int, 6);
    let entity_id = x.entity_id.encoding();
    let emitter_number = if x.beam_number is Some && x.emitter_number is Some { option_encoding(x.emitter_number) } else { Seq::empty() };
    let beam_number = if x.beam_number is Some && x.emitter_number is Some { option_encoding(x.beam_number) } else { Seq::empty() };
    let o0 = 0int;
    let o1 = o0 + index.len();
    let o2 = o1 + entity_id.len();
    let o3 = o2 + emitter_number.len();
    assert(e.subrange(o0, o0 + index.len()) =~= index);
    lemma_written_part(bits, cursor, e, o0, index);
    assert(e.subrange(o1, o1 + entity_id.len()) =~= entity_id);
    lemma_written_part(bits, cursor, e, o1, entity_id);
    assert(e.subrange(o2, o2 + emitter_number.len()) =~= emitter_number);
    lemma_written_part(bits, cursor, e, o2, emitter_number);
    assert(e.subrange(o3, o3 + beam_number.len()) =~= beam_number);
    lemma_written_part(bits, cursor, e, o3, beam_number);
}

/// The jammer track flag holds just when there are track/jam records and
/// each has both its beam and its emitter number.
pub proof fn lemma_track_jam_flag(x: EmitterBeam)
    ensures
        x.track_jam_flag() == (x.track_jam.len() > 0 && forall|i: int| 0 <= i < x.track_jam.len() ==>
            (#[trigger] x.track_jam@[i]).beam_number is Some && x.track_jam@[i].emitter_number is Some),
{
    let all_numbers = forall|i: int| 0 <= i < x.track_jam.len() ==>
        (#[trigger] x.track_jam@[i]).beam_number is Some && x.track_jam@[i].emitter_number is Some;
    if all_numbers {
        assert forall|i: int| 0 <= i < x.track_jam.len() implies #[trigger] x.track_jam@[i].numbers_present() by {
            assert(x.track_jam@[i].beam_number is Some);
        }
    }
    if forall|i: int| 0 <= i < x.track_jam.len() ==> #[trigger] x.track_jam@[i].numbers_present() {
        assert forall|i: int| 0 <= i < x.track_jam.len() implies
            (#[trigger] x.track_jam@[i]).beam_number is Some && x.track_jam@[i].emitter_number is Some by {
            assert(x.track_jam@[i].numbers_present());
        }
    }
}

/// Where an emitter beam is written, its fields stand in this order, each right
/// after the one before: the fundamental parameters index flag, the beam data
/// index flag, the jamming technique flag (set when all four of its parts are
/// present), the jammer track flag (set when there are track/jam records and
/// each has both its emitter and its beam number), the beam id, the beam
/// parameter index (16 bits), the fundamental parameters index and the beam
/// data index where present (5 bits each), the beam function (5 bits), the
/// number of track/jam records (4 bits), the high density flag, the beam
/// status (1 bit), the jamming technique (its kind, category, subcategory and
/// specific, in that order, where all four are present, else nothing), then
/// the track/jam records.
#[verifier::rlimit(80)]
pub proof fn lemma_emitter_beam_layout(x: EmitterBeam, bits: Seq<bool>, cursor: int)
    requires
        0 <= cursor,
        cursor + x.encoding().len() <= bits.len(),
    ensures
        ({
            let w = splice(bits, cursor, x.encoding());
            let fp_flag = flag_bits(x.fundamental_params_index is Some);
            let bd_flag = flag_bits(x.beam_data_index is Some);
            let jam_flag = flag_bits(x.jamming_technique_kind is Some && x.jamming_technique_category is Some && x.jamming_technique_subcategory is Some && x.jamming_technique_specific is Some);
            let track_flag = flag_bits(x.track_jam.len() > 0 && forall|i: int| 0 <= i < x.track_jam.len() ==> (#[trigger] x.track_jam@[i]).beam_number is Some && x.track_jam@[i].emitter_number is Some);
            let beam_id = x.beam_id.encoding();
            let parameter_index = int_bits(x.beam_parameter_index as int, 16);
            let fp_index = match x.fundamental_params_index { Some(i) => int_bits(i as int, 5), None => Seq::empty() };
            let bd_index = match x.beam_data_index { Some(i) => int_bits(i as int, 5), None => Seq::empty() };
            let function = int_bits(x.beam_function as int, 5);
            let track_count = int_bits(x.track_jam.len() as int, 4);
            let high_density = flag_bits(x.high_density_track_jam);
            let status = int_bits(x.beam_status as int, 1);
            let jamming = if x.jamming_technique_kind is Some && x.jamming_technique_category is Some && x.jamming_technique_subcategory is Some && x.jamming_technique_specific is Some { option_encoding(x.jamming_technique_kind) + option_encoding(x.jamming_technique_category) + option_encoding(x.jamming_technique_subcategory) + option_encoding(x.jamming_technique_specific) } else { Seq::empty() };
            let track_jam = seq_encoding(x.track_jam@);
            let o0 = cursor;
            let o1 = o0 + fp_flag.len();
            let o2 = o1 + bd_flag.len();
            let o3 = o2 + jam_flag.len();
            let o4 = o3 + track_flag.len();
            let o5 = o4 + beam_id.len();
            let o6 = o5 + parameter_index.len();
            let o7 = o6 + fp_index.len();
            let o8 = o7 + bd_index.len();
            let o9 = o8 + function.len();
            let o10 = o9 + track_count.len();
            let o11 = o10 + high_density.len();
            let o12 = o11 + status.len();
            let o13 = o12 + jamming.len();
            &&& x.encoding().len() == fp_flag.len() + bd_flag.len() + jam_flag.len() + track_flag.len() + beam_id.len() + parameter_index.len() + fp_index.len() + bd_index.len() + function.len() + track_count.len() + high_density.len() + status.len() + jamming.len() + track_jam.len()
            &&& written_at(w, o0, fp_flag)
            &&& written_at(w, o1, bd_flag)
            &&& written_at(w, o2, jam_flag)
            &&& written_at(w, o3, track_flag)
            &&& written_at(w, o4, beam_id)
            &&& written_at(w, o5, parameter_index)
            &&& written_at(w, o6, fp_index)
            &&& written_at(w, o7, bd_index)
            &&& written_at(w, o8, function)
            &&& written_at(w, o9, track_count)
            &&& written_at(w, o10, high_density)
            &&& written_at(w, o11, status)
            &&& written_at(w, o12, jamming)
            &&& written_at(w, o13, track_jam)
            &&& ((x.jamming_technique_kind is Some && x.jamming_technique_category is Some && x.jamming_technique_subcategory is Some && x.jamming_technique_specific is Some) ==> written_at(w, o12, option_encoding(x.jamming_technique_kind)) && written_at(w, o12 + option_encoding(x.jamming_technique_kind).len(), option_encoding(x.jamming_technique_category)) && written_at(w, o12 + option_encoding(x.jamming_technique_kind).len() + option_encoding(x.jamming_technique_category).len(), option_encoding(x.jamming_technique_subcategory)) && written_at(w, o12 + option_encoding(x.jamming_technique_kind).len() + option_encoding(x.jamming_technique_category).len() + option_encoding(x.jamming_technique_subcategory).len(), option_encoding(x.jamming_technique_specific)))
            &&& (!(x.jamming_technique_kind is Some && x.jamming_technique_category is Some && x.jamming_technique_subcategory is Some && x.jamming_technique_specific is Some) ==> jamming.len() == 0)
        }),
{
    reveal(flag_bits);
    reveal(option_bits);
    lemma_track_jam_flag(x);
    let e = x.encoding();
    let fp_flag = flag_bits(x.fundamental_params_index is Some);
    let bd_flag = flag_bits(x.beam_data_index is Some);
    let jam_flag = flag_bits(x.jamming_technique_kind is Some && x.jamming_technique_category is Some && x.jamming_technique_subcategory is Some && x.jamming_technique_specific is Some);
    let track_flag = flag_bits(x.track_jam.len() > 0 && forall|i: int| 0 <= i < x.track_jam.len() ==> (#[trigger] x.track_jam@[i]).beam_number is Some && x.track_jam@[i].emitter_number is Some);
    let beam_id = x.beam_id.encoding();
    let parameter_index = int_bits(x.beam_parameter_index as int, 16);
    let fp_index = match x.fundamental_params_index { Some(i) => int_bits(i as int, 5), None => Seq::empty() };
    let bd_index = match x.beam_data_index { Some(i) => int_bits(i as int, 5), None => Seq::empty() };
    let function = int_bits(x.beam_function as int, 5);
    let track_count = int_bits(x.track_jam.len() as int, 4);
    let high_density = flag_bits(x.high_density_track_jam);
    let status = int_bits(x.beam_status as int, 1);
    let jamming = if x.jamming_technique_kind is Some && x.jamming_technique_category is Some && x.jamming_technique_subcategory is Some && x.jamming_technique_specific is Some { option_encoding(x.jamming_technique_kind) + option_encoding(x.jamming_technique_category) + option_encoding(x.jamming_technique_subcategory) + option_encoding(x.jamming_technique_specific) } else { Seq::empty() };
    let track_jam = seq_encoding(x.track_jam@);
    assert(flag_bits(x.track_jam_flag()) == track_flag);
    assert(option_bits(x.fundamental_params_index_value(), 5) == fp_index);
    assert(option_bits(x.beam_data_index_value(), 5) == bd_index);
    assert(x.jamming_technique_encoding() == jamming);
    let s1 = fp_flag;
    let s2 = s1 + bd_flag;
    let s3 = s2 + jam_flag;
    let s4 = s3 + track_flag;
    let s5 = s4 + beam_id;
    let s6 = s5 + parameter_index;
    let s7 = s6 + fp_index;
    let s8 = s7 + bd_index;
    let s9 = s8 + function;
    let s10 = s9 + track_count;
    let s11 = s10 + high_density;
    let s12 = s11 + status;
    let s13 = s12 + jamming;
    let s14 = s13 + track_jam;
    assert(e == s14);
    assert(e.subrange(0, e.len() as int) =~= e);
    lemma_subrange_split(e, 0, s13, track_jam);
    lemma_subrange_split(e, 0, s12, jamming);
    lemma_subrange_split(e, 0, s11, status);
    lemma_subrange_split(e, 0, s10, high_density);
    lemma_subrange_split(e, 0, s9, track_count);
    lemma_subrange_split(e, 0, s8, function);
    lemma_subrange_split(e, 0, s7, bd_index);
    lemma_subrange_split(e, 0, s6, fp_index);
    lemma_subrange_split(e, 0, s5, parameter_index);
    lemma_subrange_split(e, 0, s4, beam_id);
    lemma_subrange_split(e, 0, s3, track_flag);
    lemma_subrange_split(e, 0, s2, jam_flag);
    lemma_subrange_split(e, 0, s1, bd_flag);
    assert(e.subrange(0, s1.len() as int) == fp_flag);
    lemma_written_part(bits, cursor, e, 0, fp_flag);
    lemma_written_part(bits, cursor, e, s1.len() as int, bd_flag);
    lemma_written_part(bits, cursor, e, s2.len() as int, jam_flag);
    lemma_written_part(bits, cursor, e, s3.len() as int, track_flag);
    lemma_written_part(bits, cursor, e, s4.len() as int, beam_id);
    lemma_written_part(bits, cursor, e, s5.len() as int, parameter_index);
    lemma_written_part(bits, cursor, e, s6.len() as int, fp_index);
    lemma_written_part(bits, cursor, e, s7.len() as int, bd_index);
    lemma_written_part(bits, cursor, e, s8.len() as int, function);
    lemma_written_part(bits, cursor, e, s9.len() as int, track_count);
    lemma_written_part(bits, cursor, e, s10.len() as int, high_density);
    lemma_written_part(bits, cursor, e, s11.len() as int, status);
    lemma_written_part(bits, cursor, e, s12.len() as int, jamming);
    lemma_written_part(bits, cursor, e, s13.len() as int, track_jam);
    let w = splice(bits, cursor, e);
    if x.jamming_technique_kind is Some && x.jamming_technique_category is Some && x.jamming_technique_subcategory is Some && x.jamming_technique_specific is Some {
        let k1 = option_encoding(x.jamming_technique_kind); let k2 = option_encoding(x.jamming_technique_category); let k3 = option_encoding(x.jamming_technique_subcategory); let k4 = option_encoding(x.jamming_technique_specific);
        let o12 = cursor + s12.len();
        assert(jamming == k1 + k2 + k3 + k4);
        lemma_written_four(w, o12, k1, k2, k3, k4);
    }
}

/// Where an emitter system is written, its fields stand in this order, each
/// right after the one before: the details flag (set when both name and
/// function are present), the location flag, the number of beams (5 bits),
/// the name (16 bits) and then the function (8 bits) where both are present,
/// the emitter number, the location where present, then the beams.
pub proof fn lemma_emitter_system_layout(x: EmitterSystem, bits: Seq<bool>, cursor: int)
    requires
        0 <= cursor,
        cursor + x.encoding().len() <= bits.len(),
    ensures
        ({
            let w = splice(bits, cursor, x.encoding());
            let details_flag = flag_bits(x.name is Some && x.function is Some);
            let location_flag = flag_bits(x.location_with_respect_to_entity is Some);
            let beam_count = int_bits(x.emitter_beams.len() as u8 as int, 5);
            let name = if x.name is Some && x.function is Some { int_bits(x.name.unwrap() as int, 16) } else { Seq::empty() };
            let function = if x.name is Some && x.function is Some { int_bits(x.function.unwrap() as int, 8) } else { Seq::empty() };
            let number = x.number.encoding();
            let location = option_encoding(x.location_with_respect_to_entity);
            let beams = seq_encoding(x.emitter_beams@);
            let o0 = cursor;
            let o1 = o0 + details_flag.len();
            let o2 = o1 + location_flag.len();
            let o3 = o2 + beam_count.len();
            let o4 = o3 + name.len();
            let o5 = o4 + function.len();
            let o6 = o5 + number.len();
            let o7 = o6 + location.len();
            &&& x.encoding().len() == details_flag.len() + location_flag.len() + beam_count.len() + name.len() + function.len() + number.len() + location.len() + beams.len()
            &&& written_at(w, o0, details_flag)
            &&& written_at(w, o1, location_flag)
            &&& written_at(w, o2, beam_count)
            &&& written_at(w, o3, name)
            &&& written_at(w, o4, function)
            &&& written_at(w, o5, number)
            &&& written_at(w, o6, location)
            &&& written_at(w, o7, beams)
        }),
{
    let e = x.encoding();
    let w = splice(bits, cursor, e);
    let details_flag = flag_bits(x.name is Some && x.function is Some);
    let location_flag = flag_bits(x.location_with_respect_to_entity is Some);
    let beam_count = int_bits(x.emitter_beams.len() as u8 as int, 5);
    let name = if x.name is Some && x.function is Some { int_bits(x.name.unwrap() as int, 16) } else { Seq::empty() };
    let function = if x.name is Some && x.function is Some { int_bits(x.function.unwrap() as int, 8) } else { Seq::empty() };
    let number = x.number.encoding();
    let location = option_encoding(x.location_with_respect_to_entity);
    let beams = seq_encoding(x.emitter_beams@);
    let o0 = 0int;
    let o1 = o0 + details_flag.len();
    let o2 = o1 + location_flag.len();
    let o3 = o2 + beam_count.len();
    let o4 = o3 + name.len();
    let o5 = o4 + function.len();
    let o6 = o5 + number.len();
    let o7 = o6 + location.len();
    assert(e.subrange(o0, o0 + details_flag.len()) =~= details_flag);
    lemma_written_part(bits, cursor, e, o0, details_flag);
    assert(e.subrange(o1, o1 + location_flag.len()) =~= location_flag);
    lemma_written_part(bits, cursor, e, o1, location_flag);
    assert(e.subrange(o2, o2 + beam_count.len()) =~= beam_count);
    lemma_written_part(bits, cursor, e, o2, beam_count);
    assert(e.subrange(o3, o3 + name.len()) =~= name);
    lemma_written_part(bits, cursor, e, o3, name);
    assert(e.subrange(o4, o4 + function.len()) =~= function);
    lemma_written_part(bits, cursor, e, o4, function);
    assert(e.subrange(o5, o5 + number.len()) =~= number);
    lemma_written_part(bits, cursor, e, o5, number);
    assert(e.subrange(o6, o6 + location.len()) =~= location);
    lemma_written_part(bits, cursor, e, o6, location);
    assert(e.subrange(o7, o7 + beams.len()) =~= beams);
    lemma_written_part(bits, cursor, e, o7, beams);
}

/// Where an Electromagnetic Emission body is written, its fields stand in
/// this order, each right after the one before: the full update flag, the
/// numbers of fundamental parameters (5 bits), beam data (5 bits) and
/// site-application pairs (6 bits), the emitting id, the event id, the state
/// update indicator (1 bit), the number of emitter systems as a UVINT8, then
/// the fundamental parameters, the beam data, the site-application pairs and
/// the emitter systems.
#[verifier::rlimit(80)]
pub proof fn lemma_electromagnetic_emission_layout(x: ElectromagneticEmission, bits: Seq<bool>, cursor: int)
    requires
        0 <= cursor,
        cursor + x.encoding().len() <= bits.len(),
    ensures
        ({
            let w = splice(bits, cursor, x.encoding());
            let full_update = flag_bits(x.full_update_flag);
            let fp_count = int_bits(x.fundamental_params.len() as int, 5);
            let bd_count = int_bits(x.beam_data.len() as int, 5);
            let sap_count = int_bits(x.site_app_pairs.len() as int, 6);
            let emitting_id = x.emitting_id.encoding();
            let event_id = x.event_id.encoding();
            let state_update = int_bits(x.state_update_indicator as int, 1);
            let system_count = uvint8_of(x.emitter_systems.len() as u8).encoding();
            let fundamental_params = seq_encoding(x.fundamental_params@);
            let beam_data = seq_encoding(x.beam_data@);
            let site_app_pairs = seq_encoding(x.site_app_pairs@);
            let emitter_systems = seq_encoding(x.emitter_systems@);
            let o0 = cursor;
            let o1 = o0 + full_update.len();
            let o2 = o1 + fp_count.len();
            let o3 = o2 + bd_count.len();
            let o4 = o3 + sap_count.len();
            let o5 = o4 + emitting_id.len();
            let o6 = o5 + event_id.len();
            let o7 = o6 + state_update.len();
            let o8 = o7 + system_count.len();
            let o9 = o8 + fundamental_params.len();
            let o10 = o9 + beam_data.len();
            let o11 = o10 + site_app_pairs.len();
            &&& x.encoding().len() == full_update.len() + fp_count.len() + bd_count.len() + sap_count.len() + emitting_id.len() + event_id.len() + state_update.len() + system_count.len() + fundamental_params.len() + beam_data.len() + site_app_pairs.len() + emitter_systems.len()
            &&& written_at(w, o0, full_update)
            &&& written_at(w, o1, fp_count)
            &&& written_at(w, o2, bd_count)
            &&& written_at(w, o3, sap_count)
            &&& written_at(w, o4, emitting_id)
            &&& written_at(w, o5, event_id)
            &&& written_at(w, o6, state_update)
            &&& written_at(w, o7, system_count)
            &&& written_at(w, o8, fundamental_params)
            &&& written_at(w, o9, beam_data)
            &&& written_at(w, o10, site_app_pairs)
            &&& written_at(w, o11, emitter_systems)
        }),
{
    let e = x.encoding();
    let w = splice(bits, cursor, e);
    let full_update = flag_bits(x.full_update_flag);
    let fp_count = int_bits(x.fundamental_params.len() as int, 5);
    let bd_count = int_bits(x.beam_data.len() as int, 5);
    let sap_count = int_bits(x.site_app_pairs.len() as int, 6);
    let emitting_id = x.emitting_id.encoding();
    let event_id = x.event_id.encoding();
    let state_update = int_bits(x.state_update_indicator as int, 1);
    let system_count = uvint8_of(x.emitter_systems.len() as u8).encoding();
    let fundamental_params = seq_encoding(x.fundamental_params@);
    let beam_data = seq_encoding(x.beam_data@);
    let site_app_pairs = seq_encoding(x.site_app_pairs@);
    let emitter_systems = seq_encoding(x.emitter_systems@);
    let o0 = 0int;
    let o1 = o0 + full_update.len();
    let o2 = o1 + fp_count.len();
    let o3 = o2 + bd_count.len();
    let o4 = o3 + sap_count.len();
    let o5 = o4 + emitting_id.len();
    let o6 = o5 + event_id.len();
    let o7 = o6 + state_update.len();
    let o8 = o7 + system_count.len();
    let o9 = o8 + fundamental_params.len();
    let o10 = o9 + beam_data.len();
    let o11 = o10 + site_app_pairs.len();
    assert(e.subrange(o0, o0 + full_update.len()) =~= full_update);
    lemma_written_part(bits, cursor, e, o0, full_update);
    assert(e.subrange(o1, o1 + fp_count.len()) =~= fp_count);
    lemma_written_part(bits, cursor, e, o1, fp_count);
    assert(e.subrange(o2, o2 + bd_count.len()) =~= bd_count);
    lemma_written_part(bits, cursor, e, o2, bd_count);
    assert(e.subrange(o3, o3 + sap_count.len()) =~= sap_count);
    lemma_written_part(bits, cursor, e, o3, sap_count);
    assert(e.subrange(o4, o4 + emitting_id.len()) =~= emitting_id);
    lemma_written_part(bits, cursor, e, o4, emitting_id);
    assert(e.subrange(o5, o5 + event_id.len()) =~= event_id);
    lemma_written_part(bits, cursor, e, o5, event_id);
    assert(e.subrange(o6, o6 + state_update.len()) =~= state_update);
    lemma_written_part(bits, cursor, e, o6, state_update);
    assert(e.subrange(o7, o7 + system_count.len()) =~= system_count);
    lemma_written_part(bits, cursor, e, o7, system_count);
    assert(e.subrange(o8, o8 + fundamental_params.len()) =~= fundamental_params);
    lemma_written_part(bits, cursor, e, o8, fundamental_params);
    assert(e.subrange(o9, o9 + beam_data.len()) =~= beam_data);
    lemma_written_part(bits, cursor, e, o9, beam_data);
    assert(e.subrange(o10, o10 + site_app_pairs.len()) =~= site_app_pairs);
    lemma_written_part(bits, cursor, e, o10, site_app_pairs);
    assert(e.subrange(o11, o11 + emitter_systems.len()) =~= emitter_systems);
    lemma_written_part(bits, cursor, e, o11, emitter_systems);
}

} // verus!
