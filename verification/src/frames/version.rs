//! The 8-byte version record: major, minor, patch (big-endian u16) and
//! build (big-endian u32).

use vstd::prelude::*;

verus! {

/// A firmware or hardware version.
#[derive(Debug, Copy, Clone, Eq, PartialEq, Structural)]
pub struct Version {
    pub major: u8,
    pub minor: u8,
    pub path: u16,
    pub build: u32,
}

impl Version {
    /// The version's 8-byte wire form, multi-byte fields big-endian.
    pub open spec fn spec_bytes(self) -> Seq<u8> {
        seq![
            self.major,
            self.minor,
            (self.path / 0x100) as u8,
            (self.path % 0x100) as u8,
            (self.build / 0x1000000) as u8,
            ((self.build / 0x10000) % 0x100) as u8,
            ((self.build / 0x100) % 0x100) as u8,
            (self.build % 0x100) as u8,
        ]
    }

    /// The version denoted by an 8-byte wire form.
    pub open spec fn spec_from_bytes(v: Seq<u8>) -> Version
        recommends
            v.len() == 8,
    {
        Version {
            major: v[0],
            minor: v[1],
            path: (v[2] * 0x100 + v[3]) as u16,
            build: (v[4] * 0x1000000 + v[5] * 0x10000 + v[6] * 0x100 + v[7]) as u32,
        }
    }

    /// Exec mirror of [`Version::spec_bytes`].
    pub fn to_bytes(&self) -> (r: [u8; 8])
        ensures
            r@ == self.spec_bytes(),
    {
        let r = [
            self.major,
            self.minor,
            (self.path / 0x100) as u8,
            (self.path % 0x100) as u8,
            (self.build / 0x1000000) as u8,
            ((self.build / 0x10000) % 0x100) as u8,
            ((self.build / 0x100) % 0x100) as u8,
            (self.build % 0x100) as u8,
        ];
        proof {
            assert(r@ =~= self.spec_bytes());
        }
        r
    }

    /// Exec mirror of [`Version::spec_from_bytes`].
    pub fn from_bytes(v: &[u8]) -> (r: Version)
        requires
            v@.len() == 8,
        ensures
            r == Self::spec_from_bytes(v@),
    {
        Version {
            major: v[0],
            minor: v[1],
            path: (v[2] as u16) * 0x100 + (v[3] as u16),
            build: (v[4] as u32) * 0x1000000 + (v[5] as u32) * 0x10000 + (v[6] as u32) * 0x100 + (
            v[7] as u32),
        }
    }
}

/// Reading back the wire form of any version returns that version.
pub proof fn lemma_version_bytes_round_trip(v: Version)
    ensures
        Version::spec_from_bytes(v.spec_bytes()) == v,
{
    let b = v.spec_bytes();
    assert((b[2] * 0x100 + b[3]) as u16 == v.path) by (nonlinear_arith)
        requires
            b[2] == v.path / 0x100 && b[3] == v.path % 0x100,
    ;
    assert((b[4] * 0x1000000 + b[5] * 0x10000 + b[6] * 0x100 + b[7]) as u32 == v.build)
        by (nonlinear_arith)
        requires
            b[4] == v.build / 0x1000000 && b[5] == (v.build / 0x10000) % 0x100 && b[6] == (v.build
                / 0x100) % 0x100 && b[7] == v.build % 0x100,
    ;
}

} // verus!
