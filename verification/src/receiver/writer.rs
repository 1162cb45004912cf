use vstd::prelude::*;
use crate::bits::{lemma_written_part, splice, written_at};
use crate::bits::{int_bits, lemma_int_bits_len, lemma_splice_append};
use crate::constants::{NINE_BITS, TWO_BITS};
use crate::receiver::model::Receiver;
use crate::writing::{BitBuffer, SerializeCdis, buffer_bits, write_integer_bits, write_signed_bits};

verus! {

broadcast use lemma_int_bits_len;

impl SerializeCdis for Receiver {
    open spec fn serializable(&self) -> bool {
        &&& self.radio_reference_id.serializable()
        &&& self.radio_number.serializable()
        &&& self.transmitter_radio_reference_id.serializable()
        &&& self.transmitter_radio_number.serializable()
    }

    /// Radio reference id, radio number, receiver state (2 bits), received
    /// power (9 bits), transmitter radio reference id, transmitter radio number.
    open spec fn encoding(&self) -> Seq<bool> {
        self.radio_reference_id.encoding() + self.radio_number.encoding()
            + int_bits(self.receiver_state as int, 2) + int_bits(self.received_power as int, 9)
            + self.transmitter_radio_reference_id.encoding() + self.transmitter_radio_number.encoding()
    }

    fn serialize(&self, buf: &mut BitBuffer, cursor: usize) -> (next: usize) {
        let ghost b0 = buffer_bits(*buf);
        let ghost e1 = self.radio_reference_id.encoding();
        let ghost e2 = self.radio_number.encoding();
        let ghost e3 = int_bits(self.receiver_state as int, 2);
        let ghost e4 = int_bits(self.received_power as int, 9);
        let ghost e5 = self.transmitter_radio_reference_id.encoding();
        let ghost e6 = self.transmitter_radio_number.encoding();
        proof { lemma_splice_append(b0, cursor as int, e1, e2); }
        let c = self.radio_reference_id.serialize(buf, cursor);
        let c = self.radio_number.serialize(buf, c);
        proof { lemma_splice_append(b0, cursor as int, e1 + e2, e3); }
        let c = write_integer_bits(buf, c, TWO_BITS, self.receiver_state as u64);
        proof { lemma_splice_append(b0, cursor as int, e1 + e2 + e3, e4); }
        let c = write_signed_bits(buf, c, NINE_BITS, self.received_power as i64);
        proof { lemma_splice_append(b0, cursor as int, e1 + e2 + e3 + e4, e5); }
        let c = self.transmitter_radio_reference_id.serialize(buf, c);
        proof { lemma_splice_append(b0, cursor as int, e1 + e2 + e3 + e4 + e5, e6); }
        self.transmitter_radio_number.serialize(buf, c)
    }
}

/// Where a Receiver body is written, its fields stand in this order, each right
/// after the one before: radio reference id, radio number, receiver state
/// (2 bits), received power (9 bits), transmitter radio reference id,
/// transmitter radio number.
pub proof fn lemma_receiver_layout(x: Receiver, bits: Seq<bool>, cursor: int)
    requires
        0 <= cursor,
        cursor + x.encoding().len() <= bits.len(),
    ensures
        ({
            let w = splice(bits, cursor, x.encoding());
            let radio_reference_id = x.radio_reference_id.encoding();
            let radio_number = x.radio_number.encoding();
            let receiver_state = int_bits(x.receiver_state as int, 2);
            let received_power = int_bits(x.received_power as int, 9);
            let transmitter_radio_reference_id = x.transmitter_radio_reference_id.encoding();
            let transmitter_radio_number = x.transmitter_radio_number.encoding();
            let o0 = cursor;
            let o1 = o0 + radio_reference_id.len();
            let o2 = o1 + radio_number.len();
            let o3 = o2 + receiver_state.len();
            let o4 = o3 + received_power.len();
            let o5 = o4 + transmitter_radio_reference_id.len();
            &&& x.encoding().len() == radio_reference_id.len() + radio_number.len() + receiver_state.len() + received_power.len() + transmitter_radio_reference_id.len() + transmitter_radio_number.len()
            &&& written_at(w, o0, radio_reference_id)
            &&& written_at(w, o1, radio_number)
            &&& written_at(w, o2, receiver_state)
            &&& written_at(w, o3, received_power)
            &&& written_at(w, o4, transmitter_radio_reference_id)
            &&& written_at(w, o5, transmitter_radio_number)
        }),
{
    let e = x.encoding();
    let w = splice(bits, cursor, e);
    let radio_reference_id = x.radio_reference_id.encoding();
    let radio_number = x.radio_number.encoding();
    let receiver_state = int_bits(x.receiver_state as int, 2);
    let received_power = int_bits(x.received_power as int, 9);
    let transmitter_radio_reference_id = x.transmitter_radio_reference_id.encoding();
    let transmitter_radio_number = x.transmitter_radio_number.encoding();
    let o0 = 0int;
    let o1 = o0 + radio_reference_id.len();
    let o2 = o1 + radio_number.len();
    let o3 = o2 + receiver_state.len();
    let o4 = o3 + received_power.len();
    let o5 = o4 + transmitter_radio_reference_id.len();
    assert(e.subrange(o0, o0 + radio_reference_id.len()) =~= radio_reference_id);
    lemma_written_part(bits, cursor, e, o0, radio_reference_id);
    assert(e.subrange(o1, o1 + radio_number.len()) =~= radio_number);
    lemma_written_part(bits, cursor, e, o1, radio_number);
    assert(e.subrange(o2, o2 + receiver_state.len()) =~= receiver_state);
    lemma_written_part(bits, cursor, e, o2, receiver_state);
    assert(e.subrange(o3, o3 + received_power.len()) =~= received_power);
    lemma_written_part(bits, cursor, e, o3, received_power);
    assert(e.subrange(o4, o4 + transmitter_radio_reference_id.len()) =~= transmitter_radio_reference_id);
    lemma_written_part(bits, cursor, e, o4, transmitter_radio_reference_id);
    assert(e.subrange(o5, o5 + transmitter_radio_number.len()) =~= transmitter_radio_number);
    lemma_written_part(bits, cursor, e, o5, transmitter_radio_number);
}

} // verus!
