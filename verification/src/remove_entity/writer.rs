use vstd::prelude::*;
use crate::bits::{int_bits, lemma_written_part, splice, written_at};
use crate::bits::lemma_splice_append;
use crate::remove_entity::model::RemoveEntity;
use crate::writing::{BitBuffer, SerializeCdis, buffer_bits};

verus! {

impl SerializeCdis for RemoveEntity {
    open spec fn serializable(&self) -> bool {
        &&& self.originating_id.serializable()
        &&& self.receiving_id.serializable()
        &&& self.request_id.serializable()
    }

    /// Originating id, receiving id, request id.
    open spec fn encoding(&self) -> Seq<bool> {
        self.originating_id.encoding() + self.receiving_id.encoding() + self.request_id.encoding()
    }

    fn serialize(&self, buf: &mut BitBuffer, cursor: usize) -> (next: usize) {
        let ghost b0 = buffer_bits(*buf);
        let ghost e1 = self.originating_id.encoding();
        let ghost e2 = self.receiving_id.encoding();
        let ghost e3 = self.request_id.encoding();
        proof { lemma_splice_append(b0, cursor as int, e1, e2); }
        let c = self.originating_id.serialize(buf, cursor);
        let c = self.receiving_id.serialize(buf, c);
        proof { lemma_splice_append(b0, cursor as int, e1 + e2, e3); }
        self.request_id.serialize(buf, c)
    }
}

/// Where a Remove Entity body is written, the originating id, the receiving id
/// and the request id stand in that order.
pub proof fn lemma_remove_entity_layout(x: RemoveEntity, bits: Seq<bool>, cursor: int)
    requires
        0 <= cursor,
        cursor + x.encoding().len() <= bits.len(),
    ensures
        ({
            let w = splice(bits, cursor, x.encoding());
            let originating = x.originating_id.encoding();
            let receiving = x.receiving_id.encoding();
            let request_id = x.request_id.encoding();
            let o0 = cursor;
            let o1 = o0 + originating.len();
            let o2 = o1 + receiving.len();
            &&& x.encoding().len() == originating.len() + receiving.len() + request_id.len()
            &&& written_at(w, o0, originating)
            &&& written_at(w, o1, receiving)
            &&& written_at(w, o2, request_id)
        }),
{
    let e = x.encoding();
    let w = splice(bits, cursor, e);
    let originating = x.originating_id.encoding();
    let receiving = x.receiving_id.encoding();
    let request_id = x.request_id.encoding();
    let o0 = 0int;
    let o1 = o0 + originating.len();
    let o2 = o1 + receiving.len();
    assert(e.subrange(o0, o0 + originating.len()) =~= originating);
    lemma_written_part(bits, cursor, e, o0, originating);
    assert(e.subrange(o1, o1 + receiving.len()) =~= receiving);
    lemma_written_part(bits, cursor, e, o1, receiving);
    assert(e.subrange(o2, o2 + request_id.len()) =~= request_id);
    lemma_written_part(bits, cursor, e, o2, request_id);
}

} // verus!
