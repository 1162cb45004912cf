use vstd::prelude::*;
use crate::bits::{bits_signed_value, bits_value};
use crate::CdisBody;
use crate::bits::{bits_of_bytes, fits_signed, fits_unsigned, int_bits, lemma_int_bits_len, lemma_splice_written, lemma_subrange_split, splice};
use crate::constants::{NINE_BITS, TWO_BITS};
use crate::parsing::{
    entity_identification, lemma_entity_identification_roundtrip, lemma_take_roundtrip,
    lemma_take_signed_roundtrip, lemma_uvint16_roundtrip, spec_entity_identification, spec_take,
    spec_take_signed, spec_uvint16, take_bits, take_signed, uvint16,
};
use crate::receiver::model::Receiver;
use crate::types::VarIntKind;
use crate::writing::SerializeCdis;

verus! {

broadcast use lemma_int_bits_len;

impl Receiver {
    /// Every field holds a value that its width can hold: the identifiers and
    /// radio numbers are UVINT16 that fit their sizes, the receiver state fits
    /// in 2 bits and the received power in 9 signed bits.
    pub open spec fn well_formed(&self) -> bool {
        &&& self.radio_reference_id.well_formed()
        &&& self.radio_number.kind == VarIntKind::Uvint16 && self.radio_number.fits()
        &&& fits_unsigned(self.receiver_state as int, 2)
        &&& fits_signed(self.received_power as int, 9)
        &&& self.transmitter_radio_reference_id.well_formed()
        &&& self.transmitter_radio_number.kind == VarIntKind::Uvint16 && self.transmitter_radio_number.fits()
    }

    /// This receiver as a PDU body.
    pub fn into_cdis_body(self) -> (body: CdisBody)
        ensures
            body == CdisBody::Receiver(self),
    {
        CdisBody::Receiver(self)
    }
}

/// The receiver body read at `pos`, with the position after it.
pub open spec fn spec_receiver_body(bits: Seq<bool>, pos: int) -> Option<(int, Receiver)> {
    match spec_entity_identification(bits, pos) {
        Some((p1, radio_reference_id)) => match spec_uvint16(bits, p1) {
            Some((p2, radio_number)) => match spec_take(bits, p2, 2) {
                Some((p3, receiver_state)) => match spec_take_signed(bits, p3, 9) {
                    Some((p4, received_power)) => match spec_entity_identification(bits, p4) {
                        Some((p5, transmitter_radio_reference_id)) => match spec_uvint16(bits, p5) {
                            Some((p6, transmitter_radio_number)) => Some((p6, Receiver {
                                radio_reference_id,
                                radio_number,
                                receiver_state: receiver_state as u16,
                                received_power: received_power as i16,
                                transmitter_radio_reference_id,
                                transmitter_radio_number,
                            })),
                            None => None,
                        },
                        None => None,
                    },
                    None => None,
                },
                None => None,
            },
            None => None,
        },
        None => None,
    }
}

/// Parse the body of a Receiver PDU from bit position `pos` of `input`.
/// Returns the position after the body and the body, or `None` where the
/// input ends before the body does.
pub fn receiver_body(input: &[u8], pos: usize) -> (r: Option<(usize, CdisBody)>)
    requires
        pos + 155 <= usize::MAX,
    ensures
        r == match spec_receiver_body(bits_of_bytes(input@), pos as int) {
            Some((p, receiver)) => Some((p as usize, CdisBody::Receiver(receiver))),
            None => None::<(usize, CdisBody)>,
        },
{
    let (p1, radio_reference_id) = match entity_identification(input, pos) {
        Some(r) => r,
        None => return None,
    };
    let (p2, radio_number) = match uvint16(input, p1) {
        Some(r) => r,
        None => return None,
    };
    let (p3, receiver_state) = match take_bits(input, p2, TWO_BITS) {
        Some(r) => r,
        None => return None,
    };
    let (p4, received_power) = match take_signed(input, p3, NINE_BITS) {
        Some(r) => r,
        None => return None,
    };
    let (p5, transmitter_radio_reference_id) = match entity_identification(input, p4) {
        Some(r) => r,
        None => return None,
    };
    let (p6, transmitter_radio_number) = match uvint16(input, p5) {
        Some(r) => r,
        None => return None,
    };
    Some((
        p6,
        Receiver {
            radio_reference_id,
            radio_number,
            receiver_state: receiver_state as u16,
            received_power: received_power as i16,
            transmitter_radio_reference_id,
            transmitter_radio_number,
        }.into_cdis_body(),
    ))
}

/// A well-formed receiver body reads back from where its bits stand.
pub proof fn lemma_receiver_body_roundtrip(bits: Seq<bool>, pos: int, receiver: Receiver)
    requires
        receiver.well_formed(),
        0 <= pos,
        pos + receiver.encoding().len() <= bits.len(),
        bits.subrange(pos, pos + receiver.encoding().len()) == receiver.encoding(),
    ensures
        spec_receiver_body(bits, pos) == Some((pos + receiver.encoding().len(), receiver)),
{
    let e1 = receiver.radio_reference_id.encoding();
    let e2 = receiver.radio_number.encoding();
    let e3 = int_bits(receiver.receiver_state as int, 2);
    let e4 = int_bits(receiver.received_power as int, 9);
    let e5 = receiver.transmitter_radio_reference_id.encoding();
    let e6 = receiver.transmitter_radio_number.encoding();
    lemma_subrange_split(bits, pos, e1 + e2 + e3 + e4 + e5, e6);
    lemma_subrange_split(bits, pos, e1 + e2 + e3 + e4, e5);
    lemma_subrange_split(bits, pos, e1 + e2 + e3, e4);
    lemma_subrange_split(bits, pos, e1 + e2, e3);
    lemma_subrange_split(bits, pos, e1, e2);
    let p1 = pos + e1.len();
    let p2 = p1 + e2.len();
    let p3 = p2 + 2;
    let p4 = p3 + 9;
    let p5 = p4 + e5.len();
    lemma_entity_identification_roundtrip(bits, pos, receiver.radio_reference_id);
    lemma_uvint16_roundtrip(bits, p1, receiver.radio_number);
    lemma_take_roundtrip(bits, p2, receiver.receiver_state as int, 2);
    lemma_take_signed_roundtrip(bits, p3, receiver.received_power as int, 9);
    lemma_entity_identification_roundtrip(bits, p4, receiver.transmitter_radio_reference_id);
    lemma_uvint16_roundtrip(bits, p5, receiver.transmitter_radio_number);
}

/// Reading a receiver body where one was written gives it back: after
/// `Receiver::serialize` wrote `receiver` at `pos` over any bits,
/// `receiver_body` at `pos` returns `receiver` and the position where the
/// writer stopped.
pub proof fn lemma_receiver_written_reads_back(bits: Seq<bool>, pos: int, receiver: Receiver)
    requires
        receiver.well_formed(),
        0 <= pos,
        pos + receiver.encoding().len() <= bits.len(),
    ensures
        spec_receiver_body(splice(bits, pos, receiver.encoding()), pos)
            == Some((pos + receiver.encoding().len(), receiver)),
{
    lemma_splice_written(bits, pos, receiver.encoding());
    lemma_receiver_body_roundtrip(splice(bits, pos, receiver.encoding()), pos, receiver);
}

/// What `receiver_body` reads, field by field: the radio reference id (an
/// entity identification) at `pos`, the radio number (a UVINT16) right after
/// it, the receiver state from the 2 bits after that, the received power from
/// the 9 two's-complement bits after those, then the transmitter radio
/// reference id and the transmitter radio number; the body ends where the
/// last of them does.
pub proof fn lemma_receiver_body_fields(bits: Seq<bool>, pos: int)
    requires
        spec_receiver_body(bits, pos) is Some,
    ensures
        ({
            let (end, r) = spec_receiver_body(bits, pos).unwrap();
            let (p1, radio_reference_id) = spec_entity_identification(bits, pos).unwrap();
            let (p2, radio_number) = spec_uvint16(bits, p1).unwrap();
            let p3 = p2 + 2;
            let p4 = p3 + 9;
            let (p5, transmitter_radio_reference_id) = spec_entity_identification(bits, p4).unwrap();
            let (p6, transmitter_radio_number) = spec_uvint16(bits, p5).unwrap();
            &&& spec_entity_identification(bits, pos) is Some
            &&& spec_uvint16(bits, p1) is Some
            &&& 0 <= p2 && p4 <= bits.len()
            &&& spec_entity_identification(bits, p4) is Some
            &&& spec_uvint16(bits, p5) is Some
            &&& r.radio_reference_id == radio_reference_id
            &&& r.radio_number == radio_number
            &&& r.receiver_state == bits_value(bits.subrange(p2, p3)) as u16
            &&& r.received_power == bits_signed_value(bits.subrange(p3, p4)) as i16
            &&& r.transmitter_radio_reference_id == transmitter_radio_reference_id
            &&& r.transmitter_radio_number == transmitter_radio_number
            &&& end == p6
        }),
{
}

} // verus!
