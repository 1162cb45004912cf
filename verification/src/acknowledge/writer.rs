use vstd::prelude::*;
use crate::bits::{lemma_written_part, splice, written_at};
use crate::acknowledge::model::Acknowledge;
use crate::bits::{int_bits, lemma_int_bits_len, lemma_splice_append};
use crate::constants::{THREE_BITS, TWO_BITS};
use crate::writing::{BitBuffer, SerializeCdis, buffer_bits, write_integer_bits};

verus! {

broadcast use lemma_int_bits_len;

impl SerializeCdis for Acknowledge {
    open spec fn serializable(&self) -> bool {
        &&& self.originating_id.serializable()
        &&& self.receiving_id.serializable()
        &&& self.request_id.serializable()
    }

    /// Originating id, receiving id, acknowledge flag (3 bits), response flag
    /// (2 bits), request id.
    open spec fn encoding(&self) -> Seq<bool> {
        self.originating_id.encoding() + self.receiving_id.encoding()
            + int_bits(self.acknowledge_flag as int, 3) + int_bits(self.response_flag as int, 2)
            + self.request_id.encoding()
    }

    fn serialize(&self, buf: &mut BitBuffer, cursor: usize) -> (next: usize) {
        let ghost b0 = buffer_bits(*buf);
        let ghost e1 = self.originating_id.encoding();
        let ghost e2 = self.receiving_id.encoding();
        let ghost e3 = int_bits(self.acknowledge_flag as int, 3);
        let ghost e4 = int_bits(self.response_flag as int, 2);
        let ghost e5 = self.request_id.encoding();
        proof { lemma_splice_append(b0, cursor as int, e1, e2); }
        let c = self.originating_id.serialize(buf, cursor);
        let c = self.receiving_id.serialize(buf, c);
        proof { lemma_splice_append(b0, cursor as int, e1 + e2, e3); }
        let c = write_integer_bits(buf, c, THREE_BITS, self.acknowledge_flag as u64);
        proof { lemma_splice_append(b0, cursor as int, e1 + e2 + e3, e4); }
        let c = write_integer_bits(buf, c, TWO_BITS, self.response_flag as u64);
        proof { lemma_splice_append(b0, cursor as int, e1 + e2 + e3 + e4, e5); }
        self.request_id.serialize(buf, c)
    }
}

/// Where an Acknowledge body is written, the originating id, the receiving
/// id, the acknowledge flag (3 bits), the response flag (2 bits) and the
/// request id stand in that order.
pub proof fn lemma_acknowledge_layout(x: Acknowledge, bits: Seq<bool>, cursor: int)
    requires
        0 <= cursor,
        cursor + x.encoding().len() <= bits.len(),
    ensures
        ({
            let w = splice(bits, cursor, x.encoding());
            let originating = x.originating_id.encoding();
            let receiving = x.receiving_id.encoding();
            let acknowledge_flag = int_bits(x.acknowledge_flag as int, 3);
            let response_flag = int_bits(x.response_flag as int, 2);
            let request_id = x.request_id.encoding();
            let o0 = cursor;
            let o1 = o0 + originating.len();
            let o2 = o1 + receiving.len();
            let o3 = o2 + acknowledge_flag.len();
            let o4 = o3 + response_flag.len();
            &&& x.encoding().len() == originating.len() + receiving.len() + acknowledge_flag.len() + response_flag.len() + request_id.len()
            &&& written_at(w, o0, originating)
            &&& written_at(w, o1, receiving)
            &&& written_at(w, o2, acknowledge_flag)
            &&& written_at(w, o3, response_flag)
            &&& written_at(w, o4, request_id)
        }),
{
    let e = x.encoding();
    let w = splice(bits, cursor, e);
    let originating = x.originating_id.encoding();
    let receiving = x.receiving_id.encoding();
    let acknowledge_flag = int_bits(x.acknowledge_flag as int, 3);
    let response_flag = int_bits(x.response_flag as int, 2);
    let request_id = x.request_id.encoding();
    let o0 = 0int;
    let o1 = o0 + originating.len();
    let o2 = o1 + receiving.len();
    let o3 = o2 + acknowledge_flag.len();
    let o4 = o3 + response_flag.len();
    assert(e.subrange(o0, o0 + originating.len()) =~= originating);
    lemma_written_part(bits, cursor, e, o0, originating);
    assert(e.subrange(o1, o1 + receiving.len()) =~= receiving);
    lemma_written_part(bits, cursor, e, o1, receiving);
    assert(e.subrange(o2, o2 + acknowledge_flag.len()) =~= acknowledge_flag);
    lemma_written_part(bits, cursor, e, o2, acknowledge_flag);
    assert(e.subrange(o3, o3 + response_flag.len()) =~= response_flag);
    lemma_written_part(bits, cursor, e, o3, response_flag);
    assert(e.subrange(o4, o4 + request_id.len()) =~= request_id);
    lemma_written_part(bits, cursor, e, o4, request_id);
}

} // verus!
