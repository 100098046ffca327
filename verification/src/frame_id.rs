//! Message identifiers and device addressing.
//!
//! A 29-bit extended CAN identifier carries a 16-bit `SubId` (device address)
//! above a 13-bit message code: `raw = sub_id * 0x2000 + code`.

use vstd::prelude::*;

verus! {

/// 16-bit device-addressing field. Zero is reserved for the unassigned state
/// and for broadcast queries.
#[derive(Debug, Copy, Clone, Eq, PartialEq, Structural)]
pub struct SubId(pub u16);

impl SubId {
    /// A `SubId` addresses a concrete device iff it is non-zero.
    pub fn is_valid(&self) -> (r: bool)
        ensures
            r == (self.0 != 0),
    {
        self.0 != 0
    }

    /// Big-endian byte pair `[high, low]`.
    pub fn split(&self) -> (r: [u8; 2])
        ensures
            r@ == seq![(self.0 / 0x100) as u8, (self.0 % 0x100) as u8],
    {
        let r = [(self.0 / 0x100) as u8, (self.0 % 0x100) as u8];
        proof {
            assert(r@ =~= seq![(self.0 / 0x100) as u8, (self.0 % 0x100) as u8]);
        }
        r
    }

    /// Inverse of [`SubId::split`]: reads a big-endian byte pair.
    pub fn from_be_pair(v: [u8; 2]) -> (r: Self)
        ensures
            r.0 == v@[0] as int * 0x100 + v@[1] as int,
    {
        SubId((v[0] as u16) * 0x100 + (v[1] as u16))
    }
}

/// The closed catalogue of message identifiers, each with a fixed 13-bit code.
#[derive(Debug, Copy, Clone, Eq, PartialEq, Structural)]
pub enum FrameId {
    Serial,
    DynId,
    HardwareVersion,
    FirmwareVersion,
    PendingFirmwareVersion,
    FirmwareUploadPartChangePos,
    FirmwareUploadPause,
    FirmwareUploadPart,
    FirmwareUploadFinished,
    FirmwareStartUpdate,
}

impl FrameId {
    /// The fixed 13-bit wire code of this identifier.
    pub open spec fn spec_code(self) -> u16 {
        match self {
            FrameId::Serial => 8000,
            FrameId::DynId => 8001,
            FrameId::HardwareVersion => 8010,
            FrameId::FirmwareVersion => 8020,
            FrameId::PendingFirmwareVersion => 8021,
            FrameId::FirmwareUploadPartChangePos => 8025,
            FrameId::FirmwareUploadPause => 8026,
            FrameId::FirmwareUploadPart => 8028,
            FrameId::FirmwareUploadFinished => 8029,
            FrameId::FirmwareStartUpdate => 8030,
        }
    }

    /// The identifier owning a 13-bit code, if any.
    pub open spec fn spec_from_code(value: u16) -> Option<FrameId> {
        if value == 8000 {
            Some(FrameId::Serial)
        } else if value == 8001 {
            Some(FrameId::DynId)
        } else if value == 8010 {
            Some(FrameId::HardwareVersion)
        } else if value == 8020 {
            Some(FrameId::FirmwareVersion)
        } else if value == 8021 {
            Some(FrameId::PendingFirmwareVersion)
        } else if value == 8025 {
            Some(FrameId::FirmwareUploadPartChangePos)
        } else if value == 8026 {
            Some(FrameId::FirmwareUploadPause)
        } else if value == 8028 {
            Some(FrameId::FirmwareUploadPart)
        } else if value == 8029 {
            Some(FrameId::FirmwareUploadFinished)
        } else if value == 8030 {
            Some(FrameId::FirmwareStartUpdate)
        } else {
            None
        }
    }

    /// Exec mirror of [`FrameId::spec_code`].
    pub fn code(&self) -> (r: u16)
        ensures
            r == self.spec_code(),
    {
        match self {
            FrameId::Serial => 8000,
            FrameId::DynId => 8001,
            FrameId::HardwareVersion => 8010,
            FrameId::FirmwareVersion => 8020,
            FrameId::PendingFirmwareVersion => 8021,
            FrameId::FirmwareUploadPartChangePos => 8025,
            FrameId::FirmwareUploadPause => 8026,
            FrameId::FirmwareUploadPart => 8028,
            FrameId::FirmwareUploadFinished => 8029,
            FrameId::FirmwareStartUpdate => 8030,
        }
    }

    /// Largest value a 13-bit message code can take.
    pub fn max_id() -> (r: u16)
        ensures
            r == 8191,
    {
        8191
    }

    /// Looks a code up in the catalogue; codes above [`FrameId::max_id`] and
    /// unassigned codes yield `None`.
    pub fn try_from_u16(value: u16) -> (r: Option<Self>)
        ensures
            r == Self::spec_from_code(value),
    {
        if value == 8000 {
            Some(FrameId::Serial)
        } else if value == 8001 {
            Some(FrameId::DynId)
        } else if value == 8010 {
            Some(FrameId::HardwareVersion)
        } else if value == 8020 {
            Some(FrameId::FirmwareVersion)
        } else if value == 8021 {
            Some(FrameId::PendingFirmwareVersion)
        } else if value == 8025 {
            Some(FrameId::FirmwareUploadPartChangePos)
        } else if value == 8026 {
            Some(FrameId::FirmwareUploadPause)
        } else if value == 8028 {
            Some(FrameId::FirmwareUploadPart)
        } else if value == 8029 {
            Some(FrameId::FirmwareUploadFinished)
        } else if value == 8030 {
            Some(FrameId::FirmwareStartUpdate)
        } else {
            None
        }
    }

    /// The sub-identifier carried in the upper bits of a raw CAN id.
    pub open spec fn spec_sub_id_of(value: u32) -> u16 {
        ((value as int / 0x2000) % 0x10000) as u16
    }

    /// The 13-bit message code carried in the lower bits of a raw CAN id.
    pub open spec fn spec_code_of(value: u32) -> u16 {
        (value as int % 0x2000) as u16
    }

    /// Splits a raw 29-bit CAN id into its message identifier and sub-id.
    /// `None` iff the low 13 bits are not a catalogued code.
    pub fn try_from_u32_with_sub_id(value: u32) -> (r: Option<(Self, SubId)>)
        ensures
            r matches Some(p) ==> Self::spec_from_code(Self::spec_code_of(value))
                == Some(p.0) && p.1.0 == Self::spec_sub_id_of(value),
            r is None ==> Self::spec_from_code(Self::spec_code_of(value)) is None,
    {
        let code = (value % 0x2000) as u16;
        match Self::try_from_u16(code) {
            Some(id) => Some((id, Self::extract_sub_id(value))),
            None => None,
        }
    }

    /// The sub-identifier above the 13-bit code of a raw CAN id.
    pub fn extract_sub_id(value: u32) -> (r: SubId)
        ensures
            r.0 == Self::spec_sub_id_of(value),
    {
        SubId(((value / 0x2000) % 0x10000) as u16)
    }

    /// Raw 29-bit CAN id carrying this message code under `sub_id`.
    pub fn as_raw(&self, sub_id: SubId) -> (r: u32)
        ensures
            r == sub_id.0 as int * 0x2000 + self.spec_code() as int,
    {
        (sub_id.0 as u32) * 0x2000 + (self.code() as u32)
    }
}

/// Looking up any identifier's own code returns that identifier.
pub proof fn lemma_code_round_trip(id: FrameId)
    ensures
        FrameId::spec_from_code(id.spec_code()) == Some(id),
{
}

/// Composing a raw id from any catalogued code and any 16-bit sub-id and
/// taking it apart returns the identifier and the sub-id unchanged.
pub proof fn lemma_id_composition(fid: FrameId, sid: SubId)
    ensures
        FrameId::spec_sub_id_of((sid.0 as int * 0x2000 + fid.spec_code() as int) as u32) == sid.0,
        FrameId::spec_from_code(FrameId::spec_code_of(
            (sid.0 as int * 0x2000 + fid.spec_code() as int) as u32,
        )) == Some(fid),
{
    let raw = sid.0 as int * 0x2000 + fid.spec_code() as int;
    assert(raw <= 0xFFFF * 0x2000 + 8191);
    assert(raw % 0x2000 == fid.spec_code() as int && raw / 0x2000 == sid.0 as int) by (nonlinear_arith)
        requires
            raw == sid.0 as int * 0x2000 + fid.spec_code() as int,
            0 <= fid.spec_code() < 0x2000,
            0 <= sid.0 <= 0xFFFF,
    ;
}

} // verus!
