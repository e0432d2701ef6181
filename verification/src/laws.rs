//! End-to-end guarantees of the framing protocol, stated over the packet
//! model: a packed packet's wire image reconstructs the packet exactly, the
//! state machine reports a packet exactly on the final byte, and any single
//! corrupted payload byte is caught by the checksum.

use vstd::prelude::*;

use crate::checksum::{crc16, lemma_crc16_single_diff};
use crate::packet::{
    computed_checksum, is_packed, new_model, spec_add_byte, window, wire_bytes, PacketModel,
    Status, FLEM_HEADER,
};

verus! {

/// The state after feeding every byte of `bytes`, in order, into the
/// construction state machine starting from `v`.
pub open spec fn run(v: PacketModel, bytes: Seq<u8>) -> PacketModel
    decreases bytes.len(),
{
    if bytes.len() == 0 {
        v
    } else {
        spec_add_byte(run(v, bytes.drop_last()), bytes.last())
    }
}

/// Feeding one more byte is one more step.
proof fn lemma_run_take_succ(v: PacketModel, bytes: Seq<u8>, i: int)
    requires
        0 <= i < bytes.len(),
    ensures
        run(v, bytes.take(i + 1)) == spec_add_byte(run(v, bytes.take(i)), bytes[i]),
{
    assert(bytes.take(i + 1).drop_last() =~= bytes.take(i));
    assert(bytes.take(i + 1).last() == bytes[i]);
}

/// The receiver's state while the sender's payload byte `k` is the next one
/// due: header fields are in, the first `k` payload bytes are written.
spec fn mid_state(tx: PacketModel, rx0: PacketModel, k: int) -> PacketModel {
    PacketModel {
        header: FLEM_HEADER,
        checksum: tx.checksum,
        request: tx.request,
        response: tx.response,
        length: tx.length,
        data: Seq::new(rx0.data.len(), |i: int| if 0 <= i < k { tx.data[i] } else { rx0.data[i] }),
        cursor: (8 + k) as u32,
        data_cursor: k as nat,
        status: Status::PacketBuilding,
    }
}

/// Recomposing a 16-bit field from its two wire bytes gives the field back.
proof fn lemma_u16_recompose(x: u16)
    ensures
        ((x & 0xFF) as u8 as u16) | (((x >> 8) as u8 as u16) << 8) == x,
{
    assert(((x & 0xFF) as u8 as u16) | (((x >> 8) as u8 as u16) << 8) == x) by (bit_vector);
}

/// The receiver's state after the seven bytes before the high length byte:
/// everything but the length is in; the length holds its low byte so far.
spec fn header_state(tx: PacketModel, rx0: PacketModel) -> PacketModel {
    PacketModel {
        header: FLEM_HEADER,
        checksum: tx.checksum,
        request: tx.request,
        response: tx.response,
        length: (tx.length & 0xFF) as u8 as u16,
        cursor: 7,
        status: Status::PacketBuilding,
        ..rx0
    }
}

/// Walks the first seven wire bytes of a sync-stamped packet: the receiver is
/// building throughout and stands in [`header_state`] after the seventh.
proof fn lemma_feed_header(tx: PacketModel, rx0: PacketModel)
    requires
        tx.header == FLEM_HEADER,
        tx.length <= tx.data.len(),
        rx0.cursor == 0,
    ensures
        forall|i: int|
            1 <= i <= 7 ==> (#[trigger] run(rx0, wire_bytes(tx).take(i))).status
                == Status::PacketBuilding,
        run(rx0, wire_bytes(tx).take(7)) == header_state(tx, rx0),
{
    let w = wire_bytes(tx);
    assert(w.len() == 8 + tx.length);
    assert((0x5555u16 & 0xFF) as u8 == 0x55) by (bit_vector);
    assert((0x5555u16 >> 8) as u8 == 0x55) by (bit_vector);
    assert(w[0] == 0x55 && w[1] == 0x55);
    assert(w.take(0) =~= Seq::<u8>::empty());
    let s0 = run(rx0, w.take(0));
    assert(s0 == rx0);
    lemma_run_take_succ(rx0, w, 0);
    let s1 = run(rx0, w.take(1));
    assert(s1 == spec_add_byte(s0, 0x55));
    lemma_run_take_succ(rx0, w, 1);
    let s2 = run(rx0, w.take(2));
    assert((0x55u8 as u16) | ((0x55u8 as u16) << 8) == 0x5555) by (bit_vector);
    assert(s2.header == FLEM_HEADER && s2.cursor == 2);
    lemma_run_take_succ(rx0, w, 2);
    let s3 = run(rx0, w.take(3));
    lemma_run_take_succ(rx0, w, 3);
    let s4 = run(rx0, w.take(4));
    lemma_u16_recompose(tx.checksum);
    assert(s4.checksum == tx.checksum && s4.cursor == 4);
    lemma_run_take_succ(rx0, w, 4);
    let s5 = run(rx0, w.take(5));
    assert(s5.request == tx.request && s5.cursor == 5);
    lemma_run_take_succ(rx0, w, 5);
    let s6 = run(rx0, w.take(6));
    assert(s6.response == tx.response && s6.cursor == 6);
    lemma_run_take_succ(rx0, w, 6);
    let s7 = run(rx0, w.take(7));
    assert(s7 =~= header_state(tx, rx0));
}

/// After the eight header bytes and `k` payload bytes of a sync-stamped
/// packet's wire image, the receiver stands exactly in [`mid_state`].
proof fn lemma_feed(tx: PacketModel, rx0: PacketModel, k: int)
    requires
        tx.header == FLEM_HEADER,
        0 < tx.length <= tx.data.len(),
        tx.data.len() == rx0.data.len(),
        tx.data.len() <= 0xFFFE,
        rx0.cursor == 0,
        0 <= k < tx.length,
    ensures
        run(rx0, wire_bytes(tx).take(8 + k)) == mid_state(tx, rx0, k),
    decreases k,
{
    let w = wire_bytes(tx);
    assert(w.len() == 8 + tx.length);
    if k == 0 {
        lemma_feed_header(tx, rx0);
        lemma_run_take_succ(rx0, w, 7);
        let s8 = run(rx0, w.take(8));
        assert(s8 == spec_add_byte(header_state(tx, rx0), w[7]));
        lemma_u16_recompose(tx.length);
        assert(s8.length == tx.length);
        assert(s8 =~= mid_state(tx, rx0, 0));
    } else {
        lemma_feed(tx, rx0, k - 1);
        lemma_run_take_succ(rx0, w, 8 + k - 1);
        let m = mid_state(tx, rx0, k - 1);
        assert(w[8 + k - 1] == tx.data.take(tx.length as int)[k - 1]);
        assert(w[8 + k - 1] == tx.data[k - 1]);
        let s = spec_add_byte(m, tx.data[k - 1]);
        assert(s =~= mid_state(tx, rx0, k));
    }
}

/// Feeding the full wire image of a sync-stamped packet into a receiver of
/// equal capacity reconstructs its fields and payload exactly; the final
/// verdict is `PacketReceived` exactly when the stored checksum matches the
/// window, `ChecksumError` otherwise, and every strictly earlier byte leaves
/// the receiver still building.
pub proof fn lemma_construct_from_wire(tx: PacketModel, rx0: PacketModel)
    requires
        tx.header == FLEM_HEADER,
        tx.length <= tx.data.len(),
        tx.data.len() == rx0.data.len(),
        tx.data.len() <= 0xFFFE,
        rx0.cursor == 0,
    ensures
        wire_bytes(tx).len() == 8 + tx.length,
        ({
            let rxf = run(rx0, wire_bytes(tx));
            &&& rxf.request == tx.request
            &&& rxf.response == tx.response
            &&& rxf.length == tx.length
            &&& rxf.checksum == tx.checksum
            &&& rxf.data.take(tx.length as int) == tx.data.take(tx.length as int)
            &&& rxf.status == if computed_checksum(tx) == tx.checksum {
                Status::PacketReceived
            } else {
                Status::ChecksumError
            }
        }),
        forall|i: int|
            1 <= i < wire_bytes(tx).len() ==> (#[trigger] run(rx0, wire_bytes(tx).take(i))).status
                == Status::PacketBuilding,
{
    let w = wire_bytes(tx);
    assert(w.len() == 8 + tx.length);
    assert(w.take(w.len() as int) =~= w);
    if tx.length == 0 {
        // Walk the seven leading bytes; validation runs on the eighth.
        lemma_feed_header(tx, rx0);
        lemma_run_take_succ(rx0, w, 7);
        lemma_u16_recompose(tx.length);
        let rxf = spec_add_byte(header_state(tx, rx0), w[7]);
        assert(run(rx0, w) == rxf);
        assert(rxf.length == tx.length);
        assert(window(PacketModel { length: tx.length, data_cursor: 0, ..header_state(tx, rx0) })
            =~= window(tx));
        assert(rxf.data.take(tx.length as int) =~= tx.data.take(tx.length as int));
    } else {
        lemma_feed_header(tx, rx0);
        let last = tx.length - 1;
        lemma_feed(tx, rx0, last);
        lemma_run_take_succ(rx0, w, 8 + last);
        let m = mid_state(tx, rx0, last);
        assert(w[8 + last] == tx.data.take(tx.length as int)[last]);
        assert(w[8 + last] == tx.data[last]);
        let rxf = spec_add_byte(m, tx.data[last]);
        assert(run(rx0, w) == rxf);
        let written = m.data.update(last, tx.data[last]);
        assert(written.take(tx.length as int) =~= tx.data.take(tx.length as int));
        assert(window(PacketModel { data: written, data_cursor: (last + 1) as nat, ..m })
            =~= window(tx));
        assert(rxf.data.take(tx.length as int) =~= tx.data.take(tx.length as int));
        // Every strictly earlier byte leaves the receiver building.
        assert forall|i: int| 1 <= i < w.len() implies (#[trigger] run(rx0, w.take(i))).status
            == Status::PacketBuilding by {
            if i >= 8 {
                lemma_feed(tx, rx0, i - 8);
            }
        }
    }
}

/// Round trip: packing a packet, emitting its wire bytes, and feeding them
/// into a fresh receiver of equal capacity reproduces request, response,
/// length and payload, with the verdict `PacketReceived` on the final byte.
pub proof fn lemma_round_trip(tx: PacketModel, rx0: PacketModel)
    requires
        is_packed(tx),
        tx.length <= tx.data.len(),
        tx.data.len() == rx0.data.len(),
        tx.data.len() <= 0xFFFE,
        rx0.cursor == 0,
    ensures
        ({
            let rxf = run(rx0, wire_bytes(tx));
            &&& rxf.status == Status::PacketReceived
            &&& rxf.request == tx.request
            &&& rxf.response == tx.response
            &&& rxf.length == tx.length
            &&& rxf.data.take(tx.length as int) == tx.data.take(tx.length as int)
        }),
{
    lemma_construct_from_wire(tx, rx0);
}

/// State-machine exactness: feeding fewer than `8 + length` bytes of a packed
/// packet's wire image to a fresh receiver never reports `PacketReceived`;
/// feeding all of them reports it, on the final byte.
pub proof fn lemma_state_machine_exactness(tx: PacketModel, rx0: PacketModel)
    requires
        is_packed(tx),
        tx.length <= tx.data.len(),
        tx.data.len() <= 0xFFFE,
        rx0 == new_model(tx.data.len()),
    ensures
        forall|i: int|
            0 <= i < wire_bytes(tx).len() ==> (#[trigger] run(rx0, wire_bytes(tx).take(i))).status
                != Status::PacketReceived,
        run(rx0, wire_bytes(tx)).status == Status::PacketReceived,
{
    lemma_construct_from_wire(tx, rx0);
    assert(wire_bytes(tx).take(0) =~= Seq::<u8>::empty());
    assert(run(rx0, wire_bytes(tx).take(0)) == rx0);
}

/// Corruption detection: flipping any single payload byte of a packed packet
/// makes the computed checksum disagree with the stored one, so a validation
/// of the corrupted packet reports a mismatch.
pub proof fn lemma_corruption_detected(v: PacketModel, i: int, b: u8)
    requires
        is_packed(v),
        v.length <= v.data.len(),
        0 <= i < v.length,
        b != v.data[i],
    ensures
        computed_checksum(PacketModel { data: v.data.update(i, b), ..v }) != v.checksum,
{
    let corrupted = PacketModel { data: v.data.update(i, b), ..v };
    let w1 = window(v);
    let w2 = window(corrupted);
    assert(w1.len() == w2.len());
    assert(w2[4 + i] == b && w1[4 + i] == v.data[i]);
    assert(forall|k: int| 0 <= k < w1.len() && k != 4 + i ==> w1[k] == w2[k]);
    lemma_crc16_single_diff(w1, w2, 4 + i);
}

/// Replaying the wire image of a packet whose single corrupted payload byte
/// breaks the checksum ends in `ChecksumError` on the receiver.
pub proof fn lemma_corrupted_replay(tx: PacketModel, rx0: PacketModel, i: int, b: u8)
    requires
        is_packed(tx),
        tx.length <= tx.data.len(),
        tx.data.len() == rx0.data.len(),
        tx.data.len() <= 0xFFFE,
        rx0.cursor == 0,
        0 <= i < tx.length,
        b != tx.data[i],
    ensures
        run(rx0, wire_bytes(PacketModel { data: tx.data.update(i, b), ..tx })).status
            == Status::ChecksumError,
{
    let corrupted = PacketModel { data: tx.data.update(i, b), ..tx };
    lemma_corruption_detected(tx, i, b);
    lemma_construct_from_wire(corrupted, rx0);
}

} // verus!
