//! The part accumulator: turns a stream of `PART_SIZE`-byte fragments into
//! aligned flash pages, with rewind on retransmit and resynchronisation
//! errors.
//!
//! The accumulator's model is the byte stream committed since the last
//! reset: the pages already handed out ([`FirmwareUpdate::spec_flushed`])
//! followed by the bytes still buffered ([`FirmwareUpdate::buf`]). The
//! length invariant ties them together: `loaded_parts_count * PART_SIZE ==
//! flushed.len() + buf.len()`, and the buffer never exceeds
//! `BUFF_SIZE == PAGE_SIZE + PART_SIZE` bytes.

use vstd::prelude::*;
use crate::frames::firmware::MAX_POSITION;

verus! {

/// Why a part was rejected; each triggers a distinct protocol reaction.
#[derive(Debug, Clone, Eq, PartialEq, Structural)]
pub enum PutPartError {
    /// The part rewinds past bytes already flushed to flash; the oldest part
    /// still buffered is carried.
    LessOfMinPart(usize),
    /// The part leaves a gap; the next expected part is carried.
    MoreOfMaxPart(usize),
    /// The buffer has no room for another part.
    NotEnoughSpace,
}

/// Device-resident accumulator of upload parts.
pub struct FirmwareUpdate<const PAGE_SIZE: usize, const PART_SIZE: usize, const BUFF_SIZE: usize> {
    buff: Vec<u8>,
    loaded_parts_count: usize,
    flushed: Ghost<Seq<u8>>,
}

impl<const PAGE_SIZE: usize, const PART_SIZE: usize, const BUFF_SIZE: usize> FirmwareUpdate<
    PAGE_SIZE,
    PART_SIZE,
    BUFF_SIZE,
> {
    /// The bytes currently buffered.
    pub closed spec fn buf(&self) -> Seq<u8> {
        self.buff@
    }

    /// How many part-sized chunks are committed, counted from part 0.
    pub closed spec fn spec_loaded(&self) -> usize {
        self.loaded_parts_count
    }

    /// The bytes already handed out as full pages since the last reset.
    pub closed spec fn spec_flushed(&self) -> Seq<u8> {
        self.flushed@
    }

    /// Everything committed since the last reset, in order.
    pub open spec fn stream(&self) -> Seq<u8> {
        self.spec_flushed() + self.buf()
    }

    /// Machine limits on the size parameters: the buffer holds one page plus
    /// one part, sizes are non-zero, and part arithmetic cannot overflow a
    /// `usize` while positions stay inside their 24-bit wire field.
    pub open spec fn sizes_ok() -> bool {
        &&& BUFF_SIZE == PAGE_SIZE + PART_SIZE
        &&& PAGE_SIZE >= 1
        &&& PART_SIZE >= 1
        &&& (MAX_POSITION + 1) * (PART_SIZE as int) <= usize::MAX as int
    }

    /// The accumulator's invariant, established at creation and preserved by
    /// every operation: the committed parts are exactly the flushed pages
    /// plus the buffered bytes, the buffer is bounded, and whole pages were
    /// flushed.
    pub open spec fn wf(&self) -> bool {
        &&& Self::sizes_ok()
        &&& self.buf().len() <= BUFF_SIZE
        &&& self.spec_flushed().len() as int % (PAGE_SIZE as int) == 0
        &&& self.spec_loaded() * PART_SIZE == self.spec_flushed().len() + self.buf().len()
        &&& self.spec_loaded() <= MAX_POSITION + 1
    }

    /// A just-created or just-reset accumulator.
    pub open spec fn is_fresh(&self) -> bool {
        &&& self.buf() == Seq::<u8>::empty()
        &&& self.spec_loaded() == 0
        &&& self.spec_flushed() == Seq::<u8>::empty()
    }

    /// An accumulator accepting part 0 next; `None` iff the buffer size is
    /// not one page plus one part.
    pub fn new() -> (r: Option<Self>)
        ensures
            r is Some <==> BUFF_SIZE == PAGE_SIZE + PART_SIZE,
            r matches Some(fw) ==> fw.is_fresh(),
            Self::sizes_ok() ==> (r matches Some(fw) ==> fw.wf()),
    {
        if PART_SIZE > usize::MAX - PAGE_SIZE {
            return None;
        }
        if BUFF_SIZE != PAGE_SIZE + PART_SIZE {
            return None;
        }
        Some(Self::default())
    }

    /// Drops everything committed since the last reset.
    pub fn reset(&mut self)
        ensures
            final(self).is_fresh(),
            Self::sizes_ok() ==> final(self).wf(),
    {
        *self = Self::default()
    }

    /// `put_part` accepts this part number in this state: part 0 always,
    /// an earlier part if the bytes it rewinds are still buffered, the next
    /// part if the buffer has room.
    pub open spec fn accepts(&self, n: usize) -> bool {
        ||| n == 0
        ||| (n < self.spec_loaded() && (self.spec_loaded() - n) * PART_SIZE <= self.buf().len())
        ||| (n == self.spec_loaded() && self.buf().len() + PART_SIZE <= BUFF_SIZE)
    }

    /// The part rewinds past bytes already flushed to flash.
    pub open spec fn rejects_behind(&self, n: usize) -> bool {
        n != 0 && n < self.spec_loaded() && (self.spec_loaded() - n) * PART_SIZE
            > self.buf().len()
    }

    /// The part leaves a gap after the committed count.
    pub open spec fn rejects_ahead(&self, n: usize) -> bool {
        n != 0 && n > self.spec_loaded()
    }

    /// The buffer has no room for the next part.
    pub open spec fn rejects_full(&self, n: usize) -> bool {
        n != 0 && n == self.spec_loaded() && self.buf().len() + PART_SIZE > BUFF_SIZE
    }

    /// The oldest part whose bytes are still buffered: where a rewound host
    /// must resume.
    pub open spec fn oldest_buffered(&self) -> int {
        self.spec_loaded() - self.buf().len() as int / (PART_SIZE as int)
    }

    /// Accepts the `part_number`-th fragment.
    ///
    /// Part 0 resets the accumulator first, so succeeds from any state. A
    /// part below the committed count rewinds to it, unless the bytes it
    /// covers were already flushed (`LessOfMinPart` carries the oldest part
    /// still buffered). A part above the committed count is a gap
    /// (`MoreOfMaxPart` carries the next expected part). A full buffer
    /// rejects the part (`NotEnoughSpace`). Part numbers come from the
    /// 24-bit wire position field.
    ///
    /// On success the committed stream becomes its first `part_number`
    /// chunks followed by this part: an in-order feed delivers every byte
    /// in order.
    pub fn put_part(&mut self, part: [u8; PART_SIZE], part_number: usize) -> (r: Result<
        (),
        PutPartError,
    >)
        requires
            old(self).wf(),
            part_number <= MAX_POSITION,
        ensures
            final(self).wf(),
            r is Ok <==> old(self).accepts(part_number),
            old(self).accepts(part_number) ==> {
                &&& final(self).spec_loaded() == part_number + 1
                &&& final(self).spec_flushed() == (if part_number == 0 {
                    Seq::<u8>::empty()
                } else {
                    old(self).spec_flushed()
                })
                &&& final(self).stream() == old(self).stream().take(
                    part_number * (PART_SIZE as int),
                ) + part@
                &&& final(self).buf() == (if part_number == 0 {
                    part@
                } else {
                    old(self).buf().take(
                        old(self).buf().len() - (old(self).spec_loaded() - part_number) * (
                        PART_SIZE as int),
                    ) + part@
                })
            },
            old(self).rejects_behind(part_number) ==> r == Err::<(), PutPartError>(
                PutPartError::LessOfMinPart(old(self).oldest_buffered() as usize),
            ) && final(self).unchanged_from(old(self)),
            old(self).rejects_ahead(part_number) ==> r == Err::<(), PutPartError>(
                PutPartError::MoreOfMaxPart(old(self).spec_loaded()),
            ) && final(self).unchanged_from(old(self)),
            old(self).rejects_full(part_number) ==> r == Err::<(), PutPartError>(
                PutPartError::NotEnoughSpace,
            ) && final(self).unchanged_from(old(self)),
    {
        if part_number == 0 {
            self.reset();
        }
        if part_number < self.loaded_parts_count {
            proof {
                assert((self.loaded_parts_count - part_number) * PART_SIZE <= (MAX_POSITION + 1)
                    * (PART_SIZE as int) && self.buf().len() as int / (PART_SIZE as int)
                    <= self.spec_loaded()) by (nonlinear_arith)
                    requires
                        PART_SIZE >= 1,
                        0 <= part_number < self.loaded_parts_count,
                        self.loaded_parts_count <= MAX_POSITION + 1,
                        self.buf().len() <= self.spec_loaded() * PART_SIZE,
                        self.spec_loaded() == self.loaded_parts_count,
                ;
            }
            let size_to_remove = (self.loaded_parts_count - part_number) * PART_SIZE;
            if size_to_remove > self.buff.len() {
                return Err(
                    PutPartError::LessOfMinPart(
                        self.loaded_parts_count - self.buff.len() / PART_SIZE,
                    ),
                );
            }
            proof {
                assert(size_to_remove / PART_SIZE == self.loaded_parts_count - part_number)
                    by (nonlinear_arith)
                    requires
                        PART_SIZE >= 1,
                        size_to_remove == (self.loaded_parts_count - part_number) * PART_SIZE,
                        part_number < self.loaded_parts_count,
                ;
            }
            self.loaded_parts_count = self.loaded_parts_count - size_to_remove / PART_SIZE;
            let new_len = self.buff.len() - size_to_remove;
            self.buff.truncate(new_len);
        } else if part_number > self.loaded_parts_count {
            return Err(PutPartError::MoreOfMaxPart(self.loaded_parts_count));
        }
        if PART_SIZE > BUFF_SIZE - self.buff.len() {
            proof {
                let loaded0 = old(self).spec_loaded() as int;
                if part_number != 0 && part_number < loaded0 {
                    let dropped = (loaded0 - part_number) * (PART_SIZE as int);
                    assert(dropped >= PART_SIZE) by (nonlinear_arith)
                        requires
                            part_number < loaded0,
                            PART_SIZE >= 1,
                            dropped == (loaded0 - part_number) * (PART_SIZE as int),
                    ;
                }
            }
            return Err(PutPartError::NotEnoughSpace);
        }
        let ghost buf_before = self.buff@;
        proof {
            let loaded0 = old(self).spec_loaded() as int;
            let n = part_number as int;
            let p = PART_SIZE as int;
            if part_number == 0 {
                assert(buf_before =~= Seq::<u8>::empty());
                assert(0 * p == 0) by (nonlinear_arith);
            } else if part_number < old(self).spec_loaded() {
                assert(n * p == loaded0 * p - (loaded0 - n) * p) by (nonlinear_arith);
            }
            assert(self.loaded_parts_count == part_number);
            assert(self.loaded_parts_count * p == self.spec_flushed().len() + buf_before.len());
            assert((n + 1) * p == n * p + p) by (nonlinear_arith);
        }
        self.loaded_parts_count = self.loaded_parts_count + 1;
        self.buff.extend_from_slice(part.as_slice());
        proof {
            assert(self.buff@ =~= buf_before + part@);
            if part_number != 0 {
                let loaded0 = old(self).spec_loaded() as int;
                if part_number == loaded0 {
                    assert((loaded0 - part_number) * (PART_SIZE as int) == 0) by (nonlinear_arith)
                        requires
                            part_number == loaded0,
                    ;
                }
                assert(buf_before =~= old(self).buf().take(
                    old(self).buf().len() - (old(self).spec_loaded() - part_number) * (
                    PART_SIZE as int),
                ));
                assert(old(self).stream().take(part_number * (PART_SIZE as int))
                    =~= old(self).spec_flushed() + buf_before);
            } else {
                assert(old(self).stream().take(0) =~= Seq::<u8>::empty());
            }
            assert(self.stream() =~= old(self).stream().take(part_number * (PART_SIZE as int))
                + part@);
        }
        Ok(())
    }

    /// State left exactly as it was.
    pub open spec fn unchanged_from(&self, other: &Self) -> bool {
        &&& self.buf() == other.buf()
        &&& self.spec_loaded() == other.spec_loaded()
        &&& self.spec_flushed() == other.spec_flushed()
    }

    /// Whether a full page is buffered.
    pub fn page_is_ready(&self) -> (r: bool)
        ensures
            r == (self.buf().len() >= PAGE_SIZE),
    {
        self.buff.len() >= PAGE_SIZE
    }

    /// The first buffered page and its zero-based page index, or `None` if
    /// no full page is buffered. The index counts pages from the start of
    /// the stream, so the returned page is the `index`-th page of the image.
    pub fn get_page(&self) -> (r: Option<(Vec<u8>, usize)>)
        requires
            self.wf(),
        ensures
            r is Some <==> self.buf().len() >= PAGE_SIZE,
            r matches Some(p) ==> p.0@ == self.buf().take(PAGE_SIZE as int) && p.1
                == self.spec_loaded() * PART_SIZE / (PAGE_SIZE as int) - 1,
    {
        if self.buff.len() < PAGE_SIZE {
            return None;
        }
        proof {
            assert(self.spec_loaded() * PART_SIZE <= (MAX_POSITION + 1) * (PART_SIZE as int)
                && self.spec_loaded() * PART_SIZE / (PAGE_SIZE as int) >= 1) by (nonlinear_arith)
                requires
                    self.spec_loaded() <= MAX_POSITION + 1,
                    PART_SIZE >= 1,
                    PAGE_SIZE >= 1,
                    self.spec_loaded() * PART_SIZE >= PAGE_SIZE,
            ;
            assert(self.spec_loaded() * PART_SIZE >= PAGE_SIZE);
        }
        let page = vstd::slice::slice_to_vec(
            vstd::slice::slice_subrange(self.buff.as_slice(), 0, PAGE_SIZE),
        );
        let index = self.loaded_parts_count * PART_SIZE / PAGE_SIZE - 1;
        Some((page, index))
    }

    /// Drops the first buffered page, handing it to the flushed prefix of
    /// the stream; `false` (and no change) if no full page is buffered.
    pub fn remove_page(&mut self) -> (r: bool)
        requires
            old(self).wf(),
        ensures
            final(self).wf(),
            r == (old(self).buf().len() >= PAGE_SIZE),
            r ==> {
                &&& final(self).buf() == old(self).buf().skip(PAGE_SIZE as int)
                &&& final(self).spec_flushed() == old(self).spec_flushed() + old(self).buf().take(
                    PAGE_SIZE as int,
                )
                &&& final(self).spec_loaded() == old(self).spec_loaded()
            },
            !r ==> final(self).unchanged_from(old(self)),
    {
        if self.buff.len() < PAGE_SIZE {
            return false;
        }
        let tail = self.buff.split_off(PAGE_SIZE);
        proof {
            let flen = self.flushed@.len() as int;
            self.flushed@ = self.flushed@ + self.buff@;
            assert((flen + PAGE_SIZE) % (PAGE_SIZE as int) == 0) by (nonlinear_arith)
                requires
                    PAGE_SIZE >= 1,
                    flen % (PAGE_SIZE as int) == 0,
            ;
        }
        self.buff = tail;
        true
    }

    /// How many bytes are buffered.
    pub fn len(&self) -> (r: usize)
        ensures
            r == self.buf().len(),
    {
        self.buff.len()
    }

    /// How many part-sized chunks are committed, counted from part 0.
    pub fn loaded_parts_count(&self) -> (r: usize)
        ensures
            r == self.spec_loaded(),
    {
        self.loaded_parts_count
    }

    /// A copy of the buffered bytes.
    pub fn buffer(&self) -> (r: Vec<u8>)
        ensures
            r@ == self.buf(),
    {
        vstd::slice::slice_to_vec(self.buff.as_slice())
    }
}

impl<const PAGE_SIZE: usize, const PART_SIZE: usize, const BUFF_SIZE: usize> Default
    for FirmwareUpdate<PAGE_SIZE, PART_SIZE, BUFF_SIZE> {
    /// An empty accumulator.
    fn default() -> (r: Self)
        ensures
            r.is_fresh(),
            Self::sizes_ok() ==> r.wf(),
    {
        let r = FirmwareUpdate { buff: Vec::new(), loaded_parts_count: 0, flushed: Ghost(Seq::empty()) };
        proof {
            assert(r.buf() =~= Seq::<u8>::empty());
        }
        r
    }
}

/// The length invariant: in any reachable state the buffered length is the
/// committed parts' bytes less the flushed pages' bytes, and fits the
/// buffer.
pub proof fn lemma_length_invariant<
    const PAGE_SIZE: usize,
    const PART_SIZE: usize,
    const BUFF_SIZE: usize,
>(fw: &FirmwareUpdate<PAGE_SIZE, PART_SIZE, BUFF_SIZE>)
    requires
        fw.wf(),
    ensures
        fw.buf().len() == fw.spec_loaded() * PART_SIZE - fw.spec_flushed().len(),
        0 <= fw.buf().len() <= PAGE_SIZE + PART_SIZE,
{
}

} // verus!
