//! The device's transmit queue: a bounded max-heap of at most 16 pending
//! frames, ordered by message code, drained by the transmit-complete
//! interrupt.
//!
//! Frames are stored packed as integer tuples `(code, kind, length, bytes)`
//! whose lexicographic order — the order the heap uses — is dominated by
//! the message code, so the frame with the largest code leaves first; among
//! frames of one code the order is arbitrary.

use vstd::multiset::Multiset;
use vstd::prelude::*;
use crate::frame_id::FrameId;
use crate::frames::{
    lemma_encode_fits,
    lemma_frame_round_trip,
    lemma_parse_id,
    lemma_parse_wf,
    spec_encode_payload,
    spec_parse,
    Frame,
    ParserType,
    Payload,
    RawType,
};

verus! {

/// A packed frame: message code, payload kind (1 for data, 0 for remote),
/// data length or requested length, and the payload bytes, first byte in
/// the highest-order position.
pub type PackedFrame = (u16, u8, u8, u64);

/// How many frames the queue holds at most.
pub const QUEUE_DEPTH: usize = 16;

#[verifier::external_type_specification]
#[verifier::external_body]
#[verifier::reject_recursive_types(T)]
#[verifier::reject_recursive_types(K)]
pub struct ExBinaryHeap<T, K, const N: usize>(heapless::binary_heap::BinaryHeap<T, K, N>);

#[verifier::external_type_specification]
#[verifier::external_body]
pub struct ExMax(heapless::binary_heap::Max);

/// What a heap holds, as a multiset: the heap keeps no usable order of
/// equal-priority items.
pub uninterp spec fn heap_items(
    q: &heapless::binary_heap::BinaryHeap<PackedFrame, heapless::binary_heap::Max, QUEUE_DEPTH>,
) -> Multiset<PackedFrame>;

/// The lexicographic order on packed frames, as `Ord` on tuples of
/// integers compares them.
pub open spec fn packed_le(a: PackedFrame, b: PackedFrame) -> bool {
    ||| a.0 < b.0
    ||| (a.0 == b.0 && (a.1 < b.1 || (a.1 == b.1 && (a.2 < b.2 || (a.2 == b.2 && a.3 <= b.3)))))
}

/// Relies on `heapless::binary_heap::BinaryHeap::new`: the new heap is
/// empty.
#[verifier::external_body]
fn heap_new() -> (q: heapless::binary_heap::BinaryHeap<
    PackedFrame,
    heapless::binary_heap::Max,
    QUEUE_DEPTH,
>)
    ensures
        heap_items(&q) == Multiset::<PackedFrame>::empty(),
{
    heapless::binary_heap::BinaryHeap::new()
}

/// Relies on `heapless::binary_heap::BinaryHeap::push`: the item is added,
/// or handed back untouched iff the heap already holds `N` items.
#[verifier::external_body]
fn heap_push(
    q: &mut heapless::binary_heap::BinaryHeap<PackedFrame, heapless::binary_heap::Max, QUEUE_DEPTH>,
    v: PackedFrame,
) -> (r: Result<(), PackedFrame>)
    ensures
        r is Ok <==> heap_items(old(q)).len() < QUEUE_DEPTH,
        r is Ok ==> heap_items(final(q)) == heap_items(old(q)).insert(v),
        r matches Err(back) ==> back == v && heap_items(final(q)) == heap_items(old(q)),
{
    q.push(v)
}

/// Relies on `heapless::binary_heap::BinaryHeap::pop` on a `Max` heap: the
/// greatest item (by the tuple's `Ord`) is removed and returned; `None`
/// iff the heap is empty.
#[verifier::external_body]
fn heap_pop(
    q: &mut heapless::binary_heap::BinaryHeap<PackedFrame, heapless::binary_heap::Max, QUEUE_DEPTH>,
) -> (r: Option<PackedFrame>)
    ensures
        r is Some <==> heap_items(old(q)).len() > 0,
        r matches Some(x) ==> {
            &&& heap_items(old(q)).count(x) > 0
            &&& heap_items(final(q)) == heap_items(old(q)).remove(x)
            &&& forall|y: PackedFrame| heap_items(old(q)).count(y) > 0 ==> packed_le(y, x)
        },
        r is None ==> heap_items(final(q)) == heap_items(old(q)),
{
    q.pop()
}

/// Relies on `heapless::binary_heap::BinaryHeap::peek` on a `Max` heap:
/// the greatest item is returned and nothing changes; `None` iff the heap
/// is empty.
#[verifier::external_body]
fn heap_peek(
    q: &heapless::binary_heap::BinaryHeap<PackedFrame, heapless::binary_heap::Max, QUEUE_DEPTH>,
) -> (r: Option<PackedFrame>)
    ensures
        r is Some <==> heap_items(q).len() > 0,
        r matches Some(x) ==> heap_items(q).count(x) > 0 && forall|y: PackedFrame|
            heap_items(q).count(y) > 0 ==> packed_le(y, x),
{
    q.peek().copied()
}

/// The payload byte at `i`, zero past the payload's end.
pub open spec fn pad_byte(b: Seq<u8>, i: int) -> u8 {
    if 0 <= i < b.len() {
        b[i]
    } else {
        0
    }
}

/// Up to 8 payload bytes packed into a `u64`, first byte highest.
pub open spec fn packed_bytes(b: Seq<u8>) -> u64
    recommends
        b.len() <= 8,
{
    (pad_byte(b, 0) * 0x100000000000000 + pad_byte(b, 1) * 0x1000000000000 + pad_byte(b, 2)
        * 0x10000000000 + pad_byte(b, 3) * 0x100000000 + pad_byte(b, 4) * 0x1000000 + pad_byte(b, 5)
        * 0x10000 + pad_byte(b, 6) * 0x100 + pad_byte(b, 7)) as u64
}

/// The `i`-th byte of a packed `u64`, first byte highest.
pub open spec fn u64_byte(v: u64, i: int) -> u8 {
    if i == 0 {
        (v / 0x100000000000000) as u8
    } else if i == 1 {
        ((v / 0x1000000000000) % 0x100) as u8
    } else if i == 2 {
        ((v / 0x10000000000) % 0x100) as u8
    } else if i == 3 {
        ((v / 0x100000000) % 0x100) as u8
    } else if i == 4 {
        ((v / 0x1000000) % 0x100) as u8
    } else if i == 5 {
        ((v / 0x10000) % 0x100) as u8
    } else if i == 6 {
        ((v / 0x100) % 0x100) as u8
    } else {
        (v % 0x100) as u8
    }
}

/// In base `base`, a value `q * base + r` with `0 <= r < base` has
/// quotient `q` and remainder `r`.
proof fn lemma_place_value(q: int, r: int, base: int)
    requires
        base >= 1,
        0 <= q,
        0 <= r < base,
    ensures
        (q * base + r) / base == q,
        (q * base + r) % base == r,
{
    assert((q * base + r) / base == q && (q * base + r) % base == r) by (nonlinear_arith)
        requires
            base >= 1,
            0 <= q,
            0 <= r < base,
    ;
}

/// Unpacking a packed payload returns its bytes, padding included.
pub proof fn lemma_packed_bytes_round_trip(b: Seq<u8>)
    requires
        b.len() <= 8,
    ensures
        forall|i: int| 0 <= i < 8 ==> u64_byte(packed_bytes(b), i) == pad_byte(b, i),
{
    let b0 = pad_byte(b, 0) as int;
    let b1 = pad_byte(b, 1) as int;
    let b2 = pad_byte(b, 2) as int;
    let b3 = pad_byte(b, 3) as int;
    let b4 = pad_byte(b, 4) as int;
    let b5 = pad_byte(b, 5) as int;
    let b6 = pad_byte(b, 6) as int;
    let b7 = pad_byte(b, 7) as int;
    let v = packed_bytes(b) as int;
    let p6 = b0 * 0x100 + b1;
    let p5 = p6 * 0x100 + b2;
    let p4 = p5 * 0x100 + b3;
    let p3 = p4 * 0x100 + b4;
    let p2 = p3 * 0x100 + b5;
    let p1 = p2 * 0x100 + b6;
    let p0 = p1 * 0x100 + b7;
    assert(v == p0) by (nonlinear_arith)
        requires
            v == b0 * 0x100000000000000 + b1 * 0x1000000000000 + b2 * 0x10000000000 + b3
                * 0x100000000 + b4 * 0x1000000 + b5 * 0x10000 + b6 * 0x100 + b7,
            p0 == ((((((b0 * 0x100 + b1) * 0x100 + b2) * 0x100 + b3) * 0x100 + b4) * 0x100 + b5)
                * 0x100 + b6) * 0x100 + b7,
    ;
    lemma_place_value(p1, b7, 0x100);
    assert(v / 0x100 == p1);
    lemma_place_value(p2, b6, 0x100);
    assert(v / 0x10000 == v / 0x100 / 0x100) by (nonlinear_arith)
        requires
            v >= 0,
    ;
    assert(v / 0x10000 == p2);
    assert(v / 0x1000000 == v / 0x10000 / 0x100) by (nonlinear_arith)
        requires
            v >= 0,
    ;
    lemma_place_value(p3, b5, 0x100);
    assert(v / 0x1000000 == p3);
    assert(v / 0x100000000 == v / 0x1000000 / 0x100) by (nonlinear_arith)
        requires
            v >= 0,
    ;
    lemma_place_value(p4, b4, 0x100);
    assert(v / 0x100000000 == p4);
    assert(v / 0x10000000000 == v / 0x100000000 / 0x100) by (nonlinear_arith)
        requires
            v >= 0,
    ;
    lemma_place_value(p5, b3, 0x100);
    assert(v / 0x10000000000 == p5);
    assert(v / 0x1000000000000 == v / 0x10000000000 / 0x100) by (nonlinear_arith)
        requires
            v >= 0,
    ;
    lemma_place_value(p6, b2, 0x100);
    assert(v / 0x1000000000000 == p6);
    assert(v / 0x100000000000000 == v / 0x1000000000000 / 0x100) by (nonlinear_arith)
        requires
            v >= 0,
    ;
    lemma_place_value(b0, b1, 0x100);
    assert(v / 0x100000000000000 == b0);
}

/// The packed form of a frame: its code, payload kind, length and bytes.
pub open spec fn spec_pack(f: Frame) -> PackedFrame {
    match spec_encode_payload(f) {
        Payload::Bytes(b) => (f.spec_id().spec_code(), 1u8, b.len() as u8, packed_bytes(b)),
        Payload::Remote(d) => (f.spec_id().spec_code(), 0u8, d, 0u64),
    }
}

/// The first `len` bytes of a packed `u64`, as a sequence.
pub open spec fn unpacked_seq(len: u8, v: u64) -> Seq<u8> {
    Seq::new(len as nat, |i: int| u64_byte(v, i))
}

/// The frame a packed tuple denotes, through the codec; `None` for tuples
/// that denote none.
pub open spec fn spec_unpack(x: PackedFrame) -> Option<Frame> {
    match FrameId::spec_from_code(x.0) {
        None => None,
        Some(id) => {
            let p = if x.1 == 1 {
                Payload::Bytes(unpacked_seq(x.2, x.3))
            } else {
                Payload::Remote(x.2)
            };
            if x.1 == 1 && x.2 > 8 {
                None
            } else {
                match spec_parse(id, p) {
                    Ok(f) => Some(f),
                    Err(_) => None,
                }
            }
        },
    }
}

/// Unpacking the packed form of any constructible frame returns that
/// frame.
pub proof fn lemma_pack_round_trip(f: Frame)
    requires
        f.wf(),
    ensures
        spec_unpack(spec_pack(f)) == Some(f),
{
    crate::frame_id::lemma_code_round_trip(f.spec_id());
    lemma_encode_fits(f);
    lemma_frame_round_trip(f);
    match spec_encode_payload(f) {
        Payload::Bytes(b) => {
            lemma_packed_bytes_round_trip(b);
            assert(unpacked_seq(b.len() as u8, packed_bytes(b)) =~= b);
        },
        Payload::Remote(_) => {},
    }
}

/// Exec mirror of [`spec_pack`].
pub fn pack_frame(f: &Frame) -> (r: PackedFrame)
    requires
        f.wf(),
    ensures
        r == spec_pack(*f),
{
    proof {
        lemma_encode_fits(*f);
    }
    let (id, raw) = f.raw_frame();
    let code = id.code();
    match raw {
        RawType::Data(v) => {
            let len = v.len();
            let b0 = if len > 0 {
                v[0]
            } else {
                0
            };
            let b1 = if len > 1 {
                v[1]
            } else {
                0
            };
            let b2 = if len > 2 {
                v[2]
            } else {
                0
            };
            let b3 = if len > 3 {
                v[3]
            } else {
                0
            };
            let b4 = if len > 4 {
                v[4]
            } else {
                0
            };
            let b5 = if len > 5 {
                v[5]
            } else {
                0
            };
            let b6 = if len > 6 {
                v[6]
            } else {
                0
            };
            let b7 = if len > 7 {
                v[7]
            } else {
                0
            };
            let packed: u64 = (b0 as u64) * 0x100000000000000 + (b1 as u64) * 0x1000000000000 + (
            b2 as u64) * 0x10000000000 + (b3 as u64) * 0x100000000 + (b4 as u64) * 0x1000000 + (
            b5 as u64) * 0x10000 + (b6 as u64) * 0x100 + (b7 as u64);
            (code, 1, len as u8, packed)
        },
        RawType::Remote(d) => (code, 0, d, 0),
    }
}

/// Exec mirror of [`spec_unpack`].
pub fn unpack_frame(x: PackedFrame) -> (r: Option<Frame>)
    ensures
        r == spec_unpack(x),
{
    let id = match FrameId::try_from_u16(x.0) {
        Some(id) => id,
        None => {
            return None;
        },
    };
    if x.1 == 1 {
        if x.2 > 8 {
            return None;
        }
        let v = x.3;
        let arr: [u8; 8] = [
            (v / 0x100000000000000) as u8,
            ((v / 0x1000000000000) % 0x100) as u8,
            ((v / 0x10000000000) % 0x100) as u8,
            ((v / 0x100000000) % 0x100) as u8,
            ((v / 0x1000000) % 0x100) as u8,
            ((v / 0x10000) % 0x100) as u8,
            ((v / 0x100) % 0x100) as u8,
            (v % 0x100) as u8,
        ];
        let bytes = vstd::slice::slice_subrange(arr.as_slice(), 0, x.2 as usize);
        proof {
            assert(bytes@ =~= unpacked_seq(x.2, x.3));
        }
        match Frame::parse_frame(id, ParserType::Data(bytes)) {
            Ok(f) => Some(f),
            Err(_) => None,
        }
    } else {
        match Frame::parse_frame(id, ParserType::Remote(x.2)) {
            Ok(f) => Some(f),
            Err(_) => None,
        }
    }
}

/// A frame waiting to be transmitted; priority is its message code.
#[derive(Debug)]
pub struct PriorityFrame(pub Frame);

impl PriorityFrame {
    /// The code that orders this frame in the transmit queue.
    pub fn priority_code(&self) -> (r: u16)
        ensures
            r == self.0.spec_id().spec_code(),
    {
        self.0.id().code()
    }
}

/// The bounded transmit queue.
pub struct TxQueue {
    heap: heapless::binary_heap::BinaryHeap<PackedFrame, heapless::binary_heap::Max, QUEUE_DEPTH>,
}

impl TxQueue {
    /// What the queue holds, packed.
    pub closed spec fn contents(&self) -> Multiset<PackedFrame> {
        heap_items(&self.heap)
    }

    /// Every held tuple denotes a frame.
    pub open spec fn wf(&self) -> bool {
        forall|x: PackedFrame| self.contents().count(x) > 0 ==> #[trigger] spec_unpack(x) is Some
    }

    /// An empty queue.
    pub fn new() -> (r: TxQueue)
        ensures
            r.wf(),
            r.contents() == Multiset::<PackedFrame>::empty(),
    {
        TxQueue { heap: heap_new() }
    }

    /// How many frames wait.
    pub open spec fn spec_len(&self) -> nat {
        self.contents().len()
    }

    /// Pushes a frame; a full queue drops it and reports `false`, after
    /// which the caller raises the transmit-complete interrupt so the
    /// mailboxes drain.
    pub fn enqueue(&mut self, frame: &PriorityFrame) -> (pushed: bool)
        requires
            old(self).wf(),
            frame.0.wf(),
        ensures
            final(self).wf(),
            pushed <==> old(self).spec_len() < QUEUE_DEPTH,
            pushed ==> final(self).contents() == old(self).contents().insert(
                spec_pack(frame.0),
            ),
            !pushed ==> final(self).contents() == old(self).contents(),
    {
        let packed = pack_frame(&frame.0);
        proof {
            lemma_pack_round_trip(frame.0);
        }
        match heap_push(&mut self.heap, packed) {
            Ok(_) => {
                proof {
                    assert forall|x: PackedFrame| self.contents().count(x) > 0 implies #[trigger]
                        spec_unpack(x) is Some by {
                        if x != packed {
                            assert(old(self).contents().count(x) > 0);
                        }
                    }
                }
                true
            },
            Err(_) => false,
        }
    }

    /// Removes and returns a frame of the largest message code among those
    /// waiting; `None` iff none waits.
    pub fn pop_frame(&mut self) -> (r: Option<Frame>)
        requires
            old(self).wf(),
        ensures
            final(self).wf(),
            r is Some <==> old(self).spec_len() > 0,
            r matches Some(f) ==> {
                &&& f.wf()
                &&& exists|x: PackedFrame| {
                    &&& old(self).contents().count(x) > 0
                    &&& #[trigger] spec_unpack(x) == Some(f)
                    &&& final(self).contents() == old(self).contents().remove(x)
                }
                &&& forall|y: PackedFrame| old(self).contents().count(y) > 0 ==> y.0
                    <= f.spec_id().spec_code()
            },
            r is None ==> final(self).contents() == old(self).contents(),
    {
        match heap_pop(&mut self.heap) {
            Some(x) => {
                proof {
                    assert(spec_unpack(x) is Some);
                }
                match unpack_frame(x) {
                    Some(f) => {
                        proof {
                            lemma_unpack_wf_and_code(x);
                            assert forall|y: PackedFrame|
                                old(self).contents().count(y) > 0 implies y.0
                                <= f.spec_id().spec_code() by {
                                assert(packed_le(y, x));
                            }
                            assert forall|z: PackedFrame| self.contents().count(z) > 0 implies
                                #[trigger] spec_unpack(z) is Some by {
                                assert(old(self).contents().count(z) > 0);
                            }
                        }
                        Some(f)
                    },
                    None => None,
                }
            },
            None => None,
        }
    }

    /// Returns, without removing, a frame of the largest message code among
    /// those waiting; `None` iff none waits.
    pub fn peek_frame(&self) -> (r: Option<Frame>)
        requires
            self.wf(),
        ensures
            r is Some <==> self.spec_len() > 0,
            r matches Some(f) ==> {
                &&& f.wf()
                &&& exists|x: PackedFrame|
                    self.contents().count(x) > 0 && #[trigger] spec_unpack(x) == Some(f)
                &&& forall|y: PackedFrame| self.contents().count(y) > 0 ==> y.0
                    <= f.spec_id().spec_code()
            },
    {
        match heap_peek(&self.heap) {
            Some(x) => {
                proof {
                    assert(spec_unpack(x) is Some);
                }
                match unpack_frame(x) {
                    Some(f) => {
                        proof {
                            lemma_unpack_wf_and_code(x);
                            assert forall|y: PackedFrame| self.contents().count(y) > 0 implies y.0
                                <= f.spec_id().spec_code() by {
                                assert(packed_le(y, x));
                            }
                        }
                        Some(f)
                    },
                    None => None,
                }
            },
            None => None,
        }
    }

    /// How many frames wait.
    pub fn len(&self) -> (r: usize)
        requires
            self.wf(),
        ensures
            r == self.spec_len(),
    {
        heap_len(&self.heap)
    }
}

/// Relies on `heapless::binary_heap::BinaryHeap::len`: how many items the
/// heap holds.
#[verifier::external_body]
fn heap_len(
    q: &heapless::binary_heap::BinaryHeap<PackedFrame, heapless::binary_heap::Max, QUEUE_DEPTH>,
) -> (r: usize)
    ensures
        r == heap_items(q).len(),
{
    q.len()
}

/// An unpacked frame is constructible and carries the packed tuple's code.
pub proof fn lemma_unpack_wf_and_code(x: PackedFrame)
    ensures
        spec_unpack(x) matches Some(f) ==> f.wf() && f.spec_id().spec_code() == x.0,
{
    match FrameId::spec_from_code(x.0) {
        None => {},
        Some(id) => {
            let p = if x.1 == 1 {
                Payload::Bytes(unpacked_seq(x.2, x.3))
            } else {
                Payload::Remote(x.2)
            };
            lemma_parse_wf(id, p);
            lemma_parse_id(id, p);
        },
    }
}

/// Priority ordering: packing orders frames by their message code, so the
/// max-heap hands the frame with the largest code out first; among frames
/// of one code the order is arbitrary.
pub proof fn lemma_priority_by_code(a: Frame, b: Frame)
    requires
        a.spec_id().spec_code() < b.spec_id().spec_code(),
    ensures
        packed_le(spec_pack(a), spec_pack(b)),
        !packed_le(spec_pack(b), spec_pack(a)),
{
}

/// `q1` is `q0` with `f` queued when there was room, and `q0` unchanged
/// when the queue was full.
pub open spec fn enqueued_one(q0: &TxQueue, q1: &TxQueue, f: Frame) -> bool {
    if q0.contents().len() < QUEUE_DEPTH {
        q1.contents() == q0.contents().insert(spec_pack(f))
    } else {
        q1.contents() == q0.contents()
    }
}

/// Pushes a frame onto the queue; the caller raises the transmit-complete
/// interrupt afterwards, whether or not the frame fit.
pub fn enqueue_frame(queue: &mut TxQueue, frame: PriorityFrame) -> (pushed: bool)
    requires
        old(queue).wf(),
        frame.0.wf(),
    ensures
        final(queue).wf(),
        pushed <==> old(queue).spec_len() < QUEUE_DEPTH,
        pushed ==> final(queue).contents() == old(queue).contents().insert(spec_pack(frame.0)),
        !pushed ==> final(queue).contents() == old(queue).contents(),
{
    queue.enqueue(&frame)
}

} // verus!
