//! The dynamic-id assignment record: a device serial and its assigned
//! 8-bit dynamic id.

use vstd::prelude::*;
use crate::frames::serial::Serial;

verus! {

/// Payload of a dynamic-id assignment.
#[derive(Debug, Copy, Clone, Eq, PartialEq)]
pub struct Data {
    pub serial: Serial,
    pub dyn_id: u8,
}

impl Data {
    /// Pairs a serial with a dynamic id.
    pub fn new(serial: Serial, dyn_id: u8) -> (r: Self)
        ensures
            r.serial == serial,
            r.dyn_id == dyn_id,
    {
        Data { serial, dyn_id }
    }

    /// The record's 6-byte wire form: the serial, then the dynamic id.
    pub open spec fn spec_bytes(self) -> Seq<u8> {
        self.serial.0@ + seq![self.dyn_id]
    }

    /// The record denoted by a 6-byte wire form.
    pub open spec fn spec_from_bytes(v: Seq<u8>) -> Data
        recommends
            v.len() == 6,
    {
        Data { serial: Serial([v[0], v[1], v[2], v[3], v[4]]), dyn_id: v[5] }
    }

    /// Exec mirror of [`Data::spec_bytes`].
    pub fn to_bytes(&self) -> (r: [u8; 6])
        ensures
            r@ == self.spec_bytes(),
    {
        let r = [self.serial.0[0], self.serial.0[1], self.serial.0[2], self.serial.0[3],
            self.serial.0[4], self.dyn_id];
        proof {
            assert(r@ =~= self.spec_bytes());
        }
        r
    }

    /// Exec mirror of [`Data::spec_from_bytes`].
    pub fn from_bytes(v: &[u8]) -> (r: Data)
        requires
            v@.len() == 6,
        ensures
            r == Self::spec_from_bytes(v@),
    {
        let r = Data { serial: Serial([v[0], v[1], v[2], v[3], v[4]]), dyn_id: v[5] };
        proof {
            assert(r.serial.0@ =~= Self::spec_from_bytes(v@).serial.0@);
        }
        r
    }
}

/// Reading back the wire form of any record returns that record.
pub proof fn lemma_dyn_id_bytes_round_trip(d: Data)
    ensures
        Data::spec_from_bytes(d.spec_bytes()) == d,
{
    broadcast use vstd::array::group_array_axioms;

    assert(Data::spec_from_bytes(d.spec_bytes()).serial.0 =~= d.serial.0);
}

} // verus!
