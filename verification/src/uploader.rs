//! Host-side uploader: the state machine that drives one device through an
//! upload, fed by received frames and read by the sending loop.
//!
//! Two concerns meet here: the cursor names the next part to send, and the
//! pause flag mirrors the device's latest backpressure. The device moves
//! the cursor back with a change-position request; the host must resume
//! from there, and must stop sending while paused.

use vstd::prelude::*;
use crate::frame_id::SubId;
use crate::frames::firmware::{UploadPart, MAX_POSITION};
use crate::frames::Frame;

verus! {

/// The `n`-th part payload of an image: its bytes at `n * 5`, zero-padded
/// to 5 bytes at the image's end.
pub open spec fn spec_chunk(image: Seq<u8>, n: int) -> Seq<u8> {
    Seq::new(
        5,
        |i: int|
            if n * 5 + i < image.len() {
                image[n * 5 + i]
            } else {
                0u8
            },
    )
}

/// The first `n` part payloads of an image, concatenated: what an in-order
/// upload of parts `0 .. n` delivers.
pub open spec fn spec_chunks(image: Seq<u8>, n: int) -> Seq<u8>
    decreases n,
{
    if n <= 0 {
        Seq::empty()
    } else {
        spec_chunks(image, n - 1) + spec_chunk(image, n - 1)
    }
}

/// `n` chunks hold `n * 5` bytes.
pub proof fn lemma_chunks_len(image: Seq<u8>, n: int)
    requires
        0 <= n,
    ensures
        spec_chunks(image, n).len() == n * 5,
    decreases n,
{
    if n > 0 {
        lemma_chunks_len(image, n - 1);
    }
}

/// In-order delivery: a device stream holding the first `n` chunks,
/// rewound to part `n` and extended with chunk `n` — what
/// `FirmwareUpdate::put_part` does on success — holds the first `n + 1`
/// chunks. Every accepted in-order part extends the delivered stream by
/// exactly its bytes.
pub proof fn lemma_in_order_delivery(image: Seq<u8>, n: int)
    requires
        0 <= n,
    ensures
        spec_chunks(image, n).take(n * 5) + spec_chunk(image, n) == spec_chunks(image, n + 1),
{
    lemma_chunks_len(image, n);
    assert(spec_chunks(image, n).take(n * 5) =~= spec_chunks(image, n));
}

/// Delivered in order: the first `n` chunks agree with the image on every
/// byte they cover.
pub proof fn lemma_chunks_carry_image(image: Seq<u8>, n: int)
    requires
        0 <= n,
    ensures
        forall|i: int|
            0 <= i < n * 5 && i < image.len() ==> #[trigger] spec_chunks(image, n)[i] == image[i],
    decreases n,
{
    lemma_chunks_len(image, n);
    if n > 0 {
        lemma_chunks_carry_image(image, n - 1);
        lemma_chunks_len(image, n - 1);
        assert forall|i: int|
            0 <= i < n * 5 && i < image.len() implies #[trigger] spec_chunks(image, n)[i]
            == image[i] by {
            if i < (n - 1) * 5 {
            } else {
                assert(spec_chunks(image, n)[i] == spec_chunk(image, n - 1)[i - (n - 1) * 5]);
            }
        }
    }
}

/// A whole image delivered: once `n * 5` reaches the image's length, the
/// first `n` chunks begin with the image itself, and the rest is the zero
/// padding of the final part.
pub proof fn lemma_chunks_deliver_image(image: Seq<u8>, n: int)
    requires
        0 <= n,
        image.len() <= n * 5,
    ensures
        spec_chunks(image, n).take(image.len() as int) == image,
{
    lemma_chunks_len(image, n);
    lemma_chunks_carry_image(image, n);
    assert(spec_chunks(image, n).take(image.len() as int) =~= image);
}

/// What the sending loop should do next.
pub enum UploadStep {
    /// Backpressure is on: wait for an un-pause or a change-position.
    Wait,
    /// Every part of the image was sent.
    Done,
    /// Transmit this part, then advance the cursor.
    Send(UploadPart),
}

/// The uploader's shared state: the next part to send and the device's
/// latest backpressure word.
pub struct Uploader {
    cursor: usize,
    paused: bool,
}

impl Uploader {
    /// The next part to send.
    pub closed spec fn spec_cursor(&self) -> usize {
        self.cursor
    }

    /// The device's latest backpressure word.
    pub closed spec fn spec_paused(&self) -> bool {
        self.paused
    }

    /// The cursor stays within one past the 24-bit position field.
    pub open spec fn wf(&self) -> bool {
        self.spec_cursor() <= MAX_POSITION + 1
    }

    /// An upload about to begin: part 0 next, not paused.
    pub fn new() -> (r: Uploader)
        ensures
            r.wf(),
            r.spec_cursor() == 0,
            !r.spec_paused(),
    {
        Uploader { cursor: 0, paused: false }
    }

    /// The next part to send.
    pub fn cursor(&self) -> (r: usize)
        ensures
            r == self.spec_cursor(),
    {
        self.cursor
    }

    /// The device's latest backpressure word.
    pub fn is_paused(&self) -> (r: bool)
        ensures
            r == self.spec_paused(),
    {
        self.paused
    }

    /// Feeds one received frame: a change-position from the target moves
    /// the cursor there, a pause word from the target sets the flag, and
    /// everything else — other frames, other senders — is ignored.
    pub fn on_frame(&mut self, frame: &Frame, source: SubId, target: SubId)
        requires
            old(self).wf(),
            frame.wf(),
        ensures
            final(self).wf(),
            source.0 == target.0 ==> match *frame {
                Frame::FirmwareUploadPartChangePos(v) => final(self).spec_cursor()
                    == v.spec_pos() && final(self).spec_paused() == old(self).spec_paused(),
                Frame::FirmwareUploadPause(b) => final(self).spec_paused() == b && final(self).spec_cursor() == old(self).spec_cursor(),
                _ => *final(self) == *old(self),
            },
            source.0 != target.0 ==> *final(self) == *old(self),
    {
        if source.0 == target.0 {
            match frame {
                Frame::FirmwareUploadPartChangePos(v) => {
                    self.cursor = v.pos();
                },
                Frame::FirmwareUploadPause(b) => {
                    self.paused = *b;
                },
                _ => {},
            }
        }
    }

    /// Decides the sending loop's next move: wait while paused, stop once
    /// every part went out, otherwise send the cursor's part — the image's
    /// bytes at `cursor * 5`, zero-padded to a full part.
    pub fn next_step(&self, image: &[u8]) -> (r: UploadStep)
        requires
            self.wf(),
            image@.len() <= (MAX_POSITION + 1) * 5,
        ensures
            self.spec_paused() ==> r is Wait,
            !self.spec_paused() && (self.spec_cursor() >= image@.len() as int / 5 + 1
                || self.spec_cursor() * 5 >= image@.len()) ==> r is Done,
            (!self.spec_paused() && self.spec_cursor() < image@.len() as int / 5 + 1
                && self.spec_cursor() * 5 < image@.len()) ==> (r matches UploadStep::Send(p)
                && p.spec_position() == self.spec_cursor() && p.spec_data()@ == spec_chunk(
                image@,
                self.spec_cursor() as int,
            )),
    {
        if self.paused {
            return UploadStep::Wait;
        }
        if self.cursor >= image.len() / 5 + 1 {
            return UploadStep::Done;
        }
        let offset = self.cursor * 5;
        if offset >= image.len() {
            return UploadStep::Done;
        }
        let b0 = image[offset];
        let b1 = if offset + 1 < image.len() {
            image[offset + 1]
        } else {
            0
        };
        let b2 = if offset + 2 < image.len() {
            image[offset + 2]
        } else {
            0
        };
        let b3 = if offset + 3 < image.len() {
            image[offset + 3]
        } else {
            0
        };
        let b4 = if offset + 4 < image.len() {
            image[offset + 4]
        } else {
            0
        };
        let data = [b0, b1, b2, b3, b4];
        match UploadPart::new(self.cursor, data) {
            Some(p) => {
                proof {
                    assert(p.spec_data()@ =~= spec_chunk(image@, self.spec_cursor() as int));
                }
                UploadStep::Send(p)
            },
            None => UploadStep::Wait,
        }
    }

    /// A part went out: the cursor moves to the next one.
    pub fn advance(&mut self)
        requires
            old(self).wf(),
            old(self).spec_cursor() <= MAX_POSITION,
        ensures
            final(self).wf(),
            final(self).spec_cursor() == old(self).spec_cursor() + 1,
            final(self).spec_paused() == old(self).spec_paused(),
    {
        self.cursor = self.cursor + 1;
    }

    /// Pacing after a sent part: a longer pause after every other part, so
    /// the device can finish a page erase.
    pub fn pacing_ms(&self) -> (r: u64)
        ensures
            r == (if self.spec_cursor() % 2 == 0 {
                50u64
            } else {
                10u64
            }),
    {
        if self.cursor % 2 == 0 {
            50
        } else {
            10
        }
    }
}

} // verus!
