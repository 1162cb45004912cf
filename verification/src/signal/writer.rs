use vstd::prelude::*;
use crate::bits::{lemma_written_part, splice, written_at};
use crate::bits::{int_bits, lemma_int_bits_len, lemma_splice_append};
use crate::constants::{EIGHT_BITS, FOURTEEN_BITS};
use crate::signal::model::Signal;
use crate::writing::{
    BitBuffer, SerializeCdis, buffer_bits, option_encoding, option_serializable, seq_encoding,
    lemma_octets_serializable, serialize_all, serialize_when_present, write_integer_bits,
};

verus! {

broadcast use lemma_int_bits_len;

impl SerializeCdis for Signal {
    open spec fn serializable(&self) -> bool {
        &&& 1 <= self.fields_present_length <= 16
        &&& self.radio_reference_id.serializable()
        &&& self.radio_number.serializable()
        &&& option_serializable(self.sample_rate)
        &&& self.data.len() * 8 <= usize::MAX
    }

    /// Fields-present flags, radio reference id, radio number, encoding
    /// scheme, TDL type (8 bits), sample rate when present, the data length in
    /// bits (14 bits), samples when present, then the data octets.
    open spec fn encoding(&self) -> Seq<bool> {
        int_bits(self.fields_present as int, self.fields_present_length as nat)
            + self.radio_reference_id.encoding() + self.radio_number.encoding()
            + self.encoding_scheme.encoding() + int_bits(self.tdl_type as int, 8)
            + option_encoding(self.sample_rate) + int_bits(self.data.len() * 8, 14)
            + option_encoding(self.samples) + seq_encoding(self.data@)
    }

    fn serialize(&self, buf: &mut BitBuffer, cursor: usize) -> (next: usize) {
        let ghost b0 = buffer_bits(*buf);
        let ghost e1 = int_bits(self.fields_present as int, self.fields_present_length as nat);
        let ghost e2 = self.radio_reference_id.encoding();
        let ghost e3 = self.radio_number.encoding();
        let ghost e4 = self.encoding_scheme.encoding();
        let ghost e5 = int_bits(self.tdl_type as int, 8);
        let ghost e6 = option_encoding(self.sample_rate);
        let ghost e7 = int_bits(self.data.len() * 8, 14);
        let ghost e8 = option_encoding(self.samples);
        let ghost e9 = seq_encoding(self.data@);
        proof { lemma_octets_serializable(self.data@); }
        let c = write_integer_bits(buf, cursor, self.fields_present_length as usize, self.fields_present as u64);
        proof { lemma_splice_append(b0, cursor as int, e1, e2); }
        let c = self.radio_reference_id.serialize(buf, c);
        proof { lemma_splice_append(b0, cursor as int, e1 + e2, e3); }
        let c = self.radio_number.serialize(buf, c);
        proof { lemma_splice_append(b0, cursor as int, e1 + e2 + e3, e4); }
        let c = self.encoding_scheme.serialize(buf, c);
        proof { lemma_splice_append(b0, cursor as int, e1 + e2 + e3 + e4, e5); }
        let c = write_integer_bits(buf, c, EIGHT_BITS, self.tdl_type as u64);
        proof { lemma_splice_append(b0, cursor as int, e1 + e2 + e3 + e4 + e5, e6); }
        let c = serialize_when_present(&self.sample_rate, buf, c);
        proof { lemma_splice_append(b0, cursor as int, e1 + e2 + e3 + e4 + e5 + e6, e7); }
        let c = write_integer_bits(buf, c, FOURTEEN_BITS, (self.data.len() * EIGHT_BITS) as u64);
        proof { lemma_splice_append(b0, cursor as int, e1 + e2 + e3 + e4 + e5 + e6 + e7, e8); }
        assert(option_serializable(self.samples)) by { reveal(option_serializable); }
        let c = serialize_when_present(&self.samples, buf, c);
        proof { lemma_splice_append(b0, cursor as int, e1 + e2 + e3 + e4 + e5 + e6 + e7 + e8, e9); }
        serialize_all(&self.data, buf, c)
    }
}

/// Where a Signal body is written, its fields stand in this order, each right
/// after the one before: the fields-present flags, radio reference id, radio
/// number, encoding scheme, TDL type (8 bits), the sample rate where present,
/// the data length in bits (14 bits), the samples where present, then the data
/// octets.
#[verifier::rlimit(80)]
pub proof fn lemma_signal_layout(x: Signal, bits: Seq<bool>, cursor: int)
    requires
        0 <= cursor,
        cursor + x.encoding().len() <= bits.len(),
    ensures
        ({
            let w = splice(bits, cursor, x.encoding());
            let flags = int_bits(x.fields_present as int, x.fields_present_length as nat);
            let radio_reference_id = x.radio_reference_id.encoding();
            let radio_number = x.radio_number.encoding();
            let encoding_scheme = x.encoding_scheme.encoding();
            let tdl_type = int_bits(x.tdl_type as int, 8);
            let sample_rate = option_encoding(x.sample_rate);
            let data_length = int_bits(x.data.len() * 8, 14);
            let samples = option_encoding(x.samples);
            let data = seq_encoding(x.data@);
            let o0 = cursor;
            let o1 = o0 + flags.len();
            let o2 = o1 + radio_reference_id.len();
            let o3 = o2 + radio_number.len();
            let o4 = o3 + encoding_scheme.len();
            let o5 = o4 + tdl_type.len();
            let o6 = o5 + sample_rate.len();
            let o7 = o6 + data_length.len();
            let o8 = o7 + samples.len();
            &&& x.encoding().len() == flags.len() + radio_reference_id.len() + radio_number.len() + encoding_scheme.len() + tdl_type.len() + sample_rate.len() + data_length.len() + samples.len() + data.len()
            &&& written_at(w, o0, flags)
            &&& written_at(w, o1, radio_reference_id)
            &&& written_at(w, o2, radio_number)
            &&& written_at(w, o3, encoding_scheme)
            &&& written_at(w, o4, tdl_type)
            &&& written_at(w, o5, sample_rate)
            &&& written_at(w, o6, data_length)
            &&& written_at(w, o7, samples)
            &&& written_at(w, o8, data)
        }),
{
    let e = x.encoding();
    let w = splice(bits, cursor, e);
    let flags = int_bits(x.fields_present as int, x.fields_present_length as nat);
    let radio_reference_id = x.radio_reference_id.encoding();
    let radio_number = x.radio_number.encoding();
    let encoding_scheme = x.encoding_scheme.encoding();
    let tdl_type = int_bits(x.tdl_type as int, 8);
    let sample_rate = option_encoding(x.sample_rate);
    let data_length = int_bits(x.data.len() * 8, 14);
    let samples = option_encoding(x.samples);
    let data = seq_encoding(x.data@);
    let o0 = 0int;
    let o1 = o0 + flags.len();
    let o2 = o1 + radio_reference_id.len();
    let o3 = o2 + radio_number.len();
    let o4 = o3 + encoding_scheme.len();
    let o5 = o4 + tdl_type.len();
    let o6 = o5 + sample_rate.len();
    let o7 = o6 + data_length.len();
    let o8 = o7 + samples.len();
    assert(e.subrange(o0, o0 + flags.len()) =~= flags);
    lemma_written_part(bits, cursor, e, o0, flags);
    assert(e.subrange(o1, o1 + radio_reference_id.len()) =~= radio_reference_id);
    lemma_written_part(bits, cursor, e, o1, radio_reference_id);
    assert(e.subrange(o2, o2 + radio_number.len()) =~= radio_number);
    lemma_written_part(bits, cursor, e, o2, radio_number);
    assert(e.subrange(o3, o3 + encoding_scheme.len()) =~= encoding_scheme);
    lemma_written_part(bits, cursor, e, o3, encoding_scheme);
    assert(e.subrange(o4, o4 + tdl_type.len()) =~= tdl_type);
    lemma_written_part(bits, cursor, e, o4, tdl_type);
    assert(e.subrange(o5, o5 + sample_rate.len()) =~= sample_rate);
    lemma_written_part(bits, cursor, e, o5, sample_rate);
    assert(e.subrange(o6, o6 + data_length.len()) =~= data_length);
    lemma_written_part(bits, cursor, e, o6, data_length);
    assert(e.subrange(o7, o7 + samples.len()) =~= samples);
    lemma_written_part(bits, cursor, e, o7, samples);
    assert(e.subrange(o8, o8 + data.len()) =~= data);
    lemma_written_part(bits, cursor, e, o8, data);
}

} // verus!
