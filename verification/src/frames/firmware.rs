//! Firmware-upload payloads: a 5-byte part at a 24-bit position, and the
//! 24-bit change-position record.

use vstd::prelude::*;

verus! {

/// Largest position a 24-bit wire field can carry.
pub const MAX_POSITION: usize = 0xFFFFFF;

/// A 24-bit resume position, big-endian on the wire.
#[derive(Debug, Copy, Clone, Eq, PartialEq, Structural)]
pub struct UploadPartChangePos(usize);

impl UploadPartChangePos {
    /// The position held.
    pub closed spec fn spec_pos(self) -> usize {
        self.0
    }

    /// Every constructor keeps the position inside 24 bits.
    pub open spec fn wf(self) -> bool {
        self.spec_pos() <= MAX_POSITION
    }

    /// Spec-level constructor; [`UploadPartChangePos::lemma_spec_new`] is its
    /// characterisation.
    pub closed spec fn spec_new(pos: usize) -> UploadPartChangePos {
        UploadPartChangePos(pos)
    }

    /// [`UploadPartChangePos::spec_new`] holds exactly the given position,
    /// and rebuilding any record from its position returns that record.
    pub proof fn lemma_spec_new(pos: usize, v: UploadPartChangePos)
        ensures
            Self::spec_new(pos).spec_pos() == pos,
            Self::spec_new(v.spec_pos()) == v,
    {
    }

    /// Accepts a position iff it fits in 24 bits.
    pub fn new(pos: usize) -> (r: Option<Self>)
        ensures
            pos <= MAX_POSITION ==> (r matches Some(p) && p.spec_pos() == pos),
            pos > MAX_POSITION ==> r is None,
    {
        if pos <= MAX_POSITION {
            Some(UploadPartChangePos(pos))
        } else {
            None
        }
    }

    /// The position held.
    pub fn pos(&self) -> (r: usize)
        ensures
            r == self.spec_pos(),
    {
        self.0
    }

    /// The record's 3-byte big-endian wire form.
    pub open spec fn spec_bytes(self) -> Seq<u8> {
        be24_of(self.spec_pos() as int)
    }

    /// Exec mirror of [`UploadPartChangePos::spec_bytes`].
    pub fn to_bytes(&self) -> (r: [u8; 3])
        requires
            self.wf(),
        ensures
            r@ == self.spec_bytes(),
    {
        let r = [(self.0 / 0x10000) as u8, ((self.0 / 0x100) % 0x100) as u8, (self.0 % 0x100) as u8];
        proof {
            assert(r@ =~= self.spec_bytes());
        }
        r
    }

    /// Reads a 3-byte big-endian position; always inside 24 bits.
    pub fn from_bytes(v: &[u8]) -> (r: Self)
        requires
            v@.len() == 3,
        ensures
            r.spec_pos() == be24_val(v@),
            r.wf(),
    {
        UploadPartChangePos(
            (v[0] as usize) * 0x10000 + (v[1] as usize) * 0x100 + (v[2] as usize),
        )
    }
}

/// Big-endian 3-byte form of a value below 2^24.
pub open spec fn be24_of(pos: int) -> Seq<u8>
    recommends
        0 <= pos <= 0xFFFFFF,
{
    seq![(pos / 0x10000) as u8, ((pos / 0x100) % 0x100) as u8, (pos % 0x100) as u8]
}

/// Value of a big-endian 3-byte field.
pub open spec fn be24_val(v: Seq<u8>) -> int
    recommends
        v.len() == 3,
{
    v[0] * 0x10000 + v[1] * 0x100 + v[2]
}

/// Reading back the 3-byte form of any 24-bit value returns that value.
pub proof fn lemma_be24_round_trip(pos: int)
    requires
        0 <= pos <= 0xFFFFFF,
    ensures
        be24_val(be24_of(pos)) == pos,
{
    assert((pos / 0x10000) * 0x10000 + ((pos / 0x100) % 0x100) * 0x100 + pos % 0x100 == pos)
        by (nonlinear_arith)
        requires
            0 <= pos <= 0xFFFFFF,
    ;
}

/// One 5-byte fragment of the image, carried at a 24-bit part position.
#[derive(Debug, Copy, Clone, Eq, PartialEq)]
pub struct UploadPart {
    position: usize,
    pub data: [u8; 5],
}

impl UploadPart {
    /// The part's position.
    pub closed spec fn spec_position(self) -> usize {
        self.position
    }

    /// The part's data bytes.
    pub closed spec fn spec_data(self) -> [u8; 5] {
        self.data
    }

    /// Every constructor keeps the position inside 24 bits.
    pub open spec fn wf(self) -> bool {
        self.spec_position() <= MAX_POSITION
    }

    /// Spec-level constructor; [`UploadPart::lemma_spec_new`] is its
    /// characterisation.
    pub closed spec fn spec_new(position: usize, data: [u8; 5]) -> UploadPart {
        UploadPart { position, data }
    }

    /// [`UploadPart::spec_new`] holds exactly the given fields, and
    /// rebuilding any part from its fields returns that part.
    pub proof fn lemma_spec_new(position: usize, data: [u8; 5], p: UploadPart)
        ensures
            Self::spec_new(position, data).spec_position() == position,
            Self::spec_new(position, data).spec_data() == data,
            Self::spec_new(p.spec_position(), p.spec_data()) == p,
    {
    }

    /// Accepts a part iff its position fits in 24 bits.
    pub fn new(position: usize, data: [u8; 5]) -> (r: Option<Self>)
        ensures
            position <= MAX_POSITION ==> (r matches Some(p) && p.spec_position() == position
                && p.spec_data() == data),
            position > MAX_POSITION ==> r is None,
    {
        if position <= MAX_POSITION {
            Some(UploadPart { position, data })
        } else {
            None
        }
    }

    /// The part's position.
    pub fn position(&self) -> (r: usize)
        ensures
            r == self.spec_position(),
    {
        self.position
    }

    /// The part's data bytes.
    pub fn data(&self) -> (r: [u8; 5])
        ensures
            r == self.spec_data(),
    {
        self.data
    }

    /// The part's 8-byte wire form: big-endian position, then the 5 data
    /// bytes.
    pub open spec fn spec_bytes(self) -> Seq<u8> {
        be24_of(self.spec_position() as int) + self.spec_data()@
    }

    /// Exec mirror of [`UploadPart::spec_bytes`].
    pub fn to_bytes(&self) -> (r: [u8; 8])
        requires
            self.wf(),
        ensures
            r@ == self.spec_bytes(),
    {
        let r = [(self.position / 0x10000) as u8, ((self.position / 0x100) % 0x100) as u8, (
        self.position % 0x100) as u8, self.data[0], self.data[1], self.data[2], self.data[3],
            self.data[4]];
        proof {
            assert(r@ =~= self.spec_bytes());
        }
        r
    }

    /// Reads an 8-byte wire form; the position is always inside 24 bits.
    pub fn from_bytes(v: &[u8]) -> (r: Self)
        requires
            v@.len() == 8,
        ensures
            r.spec_position() == be24_val(v@.take(3)),
            r.spec_data()@ == v@.skip(3),
            r.wf(),
    {
        let r = UploadPart {
            position: (v[0] as usize) * 0x10000 + (v[1] as usize) * 0x100 + (v[2] as usize),
            data: [v[3], v[4], v[5], v[6], v[7]],
        };
        proof {
            assert(be24_val(v@.take(3)) == v@[0] * 0x10000 + v@[1] * 0x100 + v@[2]);
            assert(r.data@ =~= v@.skip(3));
        }
        r
    }
}

} // verus!
