//! The fixed 5-byte device identity, printable as 10 hex digits.

use vstd::prelude::*;
use vstd::string::StringSliceAdditionalSpecFns;

verus! {

/// Lowercase ASCII hex digit for a nibble.
pub open spec fn hex_digit(n: u8) -> u8
    recommends
        n < 16,
{
    if n < 10 {
        (48 + n) as u8
    } else {
        (87 + n) as u8
    }
}

/// Lowercase ASCII hex encoding, two digits per byte, high nibble first.
pub open spec fn hex_of(bytes: Seq<u8>) -> Seq<u8> {
    Seq::new(
        bytes.len() * 2,
        |i: int|
            if i % 2 == 0 {
                hex_digit(bytes[i / 2] / 16)
            } else {
                hex_digit(bytes[i / 2] % 16)
            },
    )
}

/// Value of one ASCII hex digit, either case; `None` for any other byte.
pub open spec fn hex_val(c: u8) -> Option<u8> {
    if 48 <= c <= 57 {
        Some((c - 48) as u8)
    } else if 97 <= c <= 102 {
        Some((c - 87) as u8)
    } else if 65 <= c <= 70 {
        Some((c - 55) as u8)
    } else {
        None
    }
}

/// The 5 bytes denoted by 10 ASCII hex digits, or `None` if any byte is not
/// a hex digit.
pub open spec fn parsed_serial(s: Seq<u8>) -> Option<Seq<u8>>
    recommends
        s.len() == 10,
{
    if forall|i: int| 0 <= i < 10 ==> #[trigger] hex_val(s[i]) is Some {
        Some(
            Seq::new(
                5,
                |i: int| (hex_val(s[2 * i]).unwrap() * 16 + hex_val(s[2 * i + 1]).unwrap()) as u8,
            ),
        )
    } else {
        None
    }
}

/// Fixed 5-byte opaque device identity, byte order preserving.
#[derive(Debug, Copy, Clone)]
pub struct Serial(pub [u8; 5]);

impl PartialEq for Serial {
    fn eq(&self, o: &Serial) -> (r: bool) {
        let r = self.0[0] == o.0[0] && self.0[1] == o.0[1] && self.0[2] == o.0[2] && self.0[3]
            == o.0[3] && self.0[4] == o.0[4];
        proof {
            if r {
                assert(self.0@ =~= o.0@);
            }
        }
        r
    }
}

impl vstd::std_specs::cmp::PartialEqSpecImpl for Serial {
    open spec fn obeys_eq_spec() -> bool {
        true
    }

    open spec fn eq_spec(&self, o: &Serial) -> bool {
        self.0@ == o.0@
    }
}

impl Eq for Serial {}

impl Serial {
    /// The identity's 10 lowercase hex digits, as ASCII bytes.
    pub fn to_hex(&self) -> (r: Vec<u8>)
        ensures
            r@ == hex_of(self.0@),
    {
        let mut out: Vec<u8> = Vec::new();
        let mut i: usize = 0;
        while i < 5
            invariant
                i <= 5,
                out@ =~= hex_of(self.0@).take(2 * i as int),
            decreases 5 - i,
        {
            let b = self.0[i];
            out.push(hex_digit_of(b / 16));
            out.push(hex_digit_of(b % 16));
            i = i + 1;
            proof {
                assert(out@ =~= hex_of(self.0@).take(2 * i as int));
            }
        }
        proof {
            assert(hex_of(self.0@).take(10) =~= hex_of(self.0@));
        }
        out
    }

    /// Reads an identity from exactly 10 hex digits, either case.
    pub fn try_from_str(value: &str) -> (r: Result<Serial, ()>)
        ensures
            r matches Ok(s) ==> value.spec_bytes().len() == 10 && parsed_serial(
                value.spec_bytes(),
            ) == Some(s.0@),
            r is Err ==> value.spec_bytes().len() != 10 || parsed_serial(
                value.spec_bytes(),
            ) is None,
    {
        let bytes = value.as_bytes();
        if bytes.len() != 10 {
            return Err(());
        }
        let mut buf: [u8; 5] = [0, 0, 0, 0, 0];
        let mut i: usize = 0;
        while i < 5
            invariant
                i <= 5,
                bytes@ == value.spec_bytes(),
                bytes@.len() == 10,
                forall|j: int| 0 <= j < 2 * i ==> #[trigger] hex_val(bytes@[j]) is Some,
                forall|j: int|
                    0 <= j < i ==> buf@[j] == (hex_val(bytes@[2 * j]).unwrap() * 16 + hex_val(
                        bytes@[2 * j + 1],
                    ).unwrap()) as u8,
            decreases 5 - i,
        {
            let hi = match hex_val_of(bytes[2 * i]) {
                Some(v) => v,
                None => {
                    return Err(());
                },
            };
            let lo = match hex_val_of(bytes[2 * i + 1]) {
                Some(v) => v,
                None => {
                    return Err(());
                },
            };
            buf[i] = hi * 16 + lo;
            i = i + 1;
        }
        proof {
            assert(parsed_serial(bytes@) == Some(buf@)) by {
                assert(forall|j: int| 0 <= j < 10 ==> #[trigger] hex_val(bytes@[j]) is Some);
                assert(buf@ =~= parsed_serial(bytes@).unwrap());
            }
        }
        Ok(Serial(buf))
    }
}

/// Exec mirror of [`hex_digit`].
fn hex_digit_of(n: u8) -> (r: u8)
    requires
        n < 16,
    ensures
        r == hex_digit(n),
{
    if n < 10 {
        48 + n
    } else {
        87 + n
    }
}

/// Exec mirror of [`hex_val`].
fn hex_val_of(c: u8) -> (r: Option<u8>)
    ensures
        r == hex_val(c),
{
    if 48 <= c && c <= 57 {
        Some(c - 48)
    } else if 97 <= c && c <= 102 {
        Some(c - 87)
    } else if 65 <= c && c <= 70 {
        Some(c - 55)
    } else {
        None
    }
}

} // verus!
