//! The message catalogue: payload types, the frame sum type, and the codec
//! between frames and raw CAN payloads.
//!
//! [`Frame::parse_frame`] and [`Frame::raw_frame`] are total inverses under
//! the per-identifier length rules; [`lemma_frame_round_trip`] states that.

pub mod dyn_id;
pub mod firmware;
pub mod serial;
pub mod version;

use vstd::prelude::*;
use crate::frame_id::{FrameId, SubId};

verus! {

broadcast use vstd::array::group_array_axioms;

/// A value-carrying payload or a remote (request) payload.
#[derive(Debug, Copy, Clone, Eq, PartialEq)]
pub enum Type<T> {
    Data(T),
    Remote,
}

/// One decoded protocol message.
#[derive(Debug, Copy, Clone, Eq, PartialEq)]
pub enum Frame {
    Serial(Type<serial::Serial>),
    DynId(dyn_id::Data),
    HardwareVersion(Type<version::Version>),
    FirmwareVersion(Type<version::Version>),
    PendingFirmwareVersion(Type<Option<version::Version>>),
    FirmwareUploadPartChangePos(firmware::UploadPartChangePos),
    FirmwareUploadPause(bool),
    FirmwareUploadPart(firmware::UploadPart),
    FirmwareUploadFinished,
    FirmwareStartUpdate,
}

/// Why a raw payload was rejected. The offending frame is dropped and the
/// receiver carries on.
#[derive(Debug, Copy, Clone, Eq, PartialEq, Structural)]
pub enum ParseError {
    /// A data payload of the wrong length.
    WrongDataSize,
    /// Malformed payload contents.
    WrongData,
    /// The 13-bit code is not in the catalogue.
    UnknownId,
    /// A remote frame where this identifier permits none.
    RemoteFrame,
    /// A remote frame with the wrong requested length, or a version payload
    /// of the wrong length.
    WrongDlc,
}

/// Raw payload handed to the parser: data bytes, or a remote frame's
/// requested length.
#[derive(Debug, Copy, Clone)]
pub enum ParserType<'a> {
    Data(&'a [u8]),
    Remote(u8),
}

/// Raw payload produced by the encoder: up to 8 data bytes, or a remote
/// frame's requested length.
#[derive(Debug, Clone)]
pub enum RawType {
    Data(Vec<u8>),
    Remote(u8),
}

/// Mathematical view of a raw payload, shared by [`ParserType`] and
/// [`RawType`].
pub enum Payload {
    Bytes(Seq<u8>),
    Remote(u8),
}

impl<'a> View for ParserType<'a> {
    type V = Payload;

    open spec fn view(&self) -> Payload {
        match *self {
            ParserType::Data(b) => Payload::Bytes(b@),
            ParserType::Remote(dlc) => Payload::Remote(dlc),
        }
    }
}

impl View for RawType {
    type V = Payload;

    open spec fn view(&self) -> Payload {
        match *self {
            RawType::Data(ref b) => Payload::Bytes(b@),
            RawType::Remote(dlc) => Payload::Remote(dlc),
        }
    }
}


/// The byte sequence of a data payload; the empty sequence for a remote one.
pub open spec fn payload_bytes(p: Payload) -> Seq<u8> {
    match p {
        Payload::Bytes(b) => b,
        Payload::Remote(_) => Seq::empty(),
    }
}

impl PartialEq for RawType {
    fn eq(&self, o: &RawType) -> (r: bool) {
        match (self, o) {
            (RawType::Data(a), RawType::Data(b)) => {
                let r = a == b;
                proof {
                    if r {
                        assert(a@ =~= b@);
                    } else {
                        if a@ == b@ {
                            assert(forall|i: int| 0 <= i < a@.len() ==> a@[i] == b@[i]);
                        }
                    }
                }
                r
            },
            (RawType::Remote(a), RawType::Remote(b)) => a == b,
            _ => false,
        }
    }
}

impl vstd::std_specs::cmp::PartialEqSpecImpl for RawType {
    open spec fn obeys_eq_spec() -> bool {
        true
    }

    open spec fn eq_spec(&self, o: &RawType) -> bool {
        match (*self, *o) {
            (RawType::Data(a), RawType::Data(b)) => a@ == b@,
            (RawType::Remote(a), RawType::Remote(b)) => a == b,
            _ => false,
        }
    }
}

impl Eq for RawType {}

impl RawType {
    /// A data payload holding a copy of the given bytes.
    pub fn new_data(bytes: &[u8]) -> (r: RawType)
        requires
            bytes@.len() <= 8,
        ensures
            r@ == Payload::Bytes(bytes@),
    {
        RawType::Data(vstd::slice::slice_to_vec(bytes))
    }
}

impl Frame {
    /// The identifier a frame travels under.
    pub open spec fn spec_id(self) -> FrameId {
        match self {
            Frame::Serial(_) => FrameId::Serial,
            Frame::DynId(_) => FrameId::DynId,
            Frame::HardwareVersion(_) => FrameId::HardwareVersion,
            Frame::FirmwareVersion(_) => FrameId::FirmwareVersion,
            Frame::PendingFirmwareVersion(_) => FrameId::PendingFirmwareVersion,
            Frame::FirmwareUploadPartChangePos(_) => FrameId::FirmwareUploadPartChangePos,
            Frame::FirmwareUploadPause(_) => FrameId::FirmwareUploadPause,
            Frame::FirmwareUploadPart(_) => FrameId::FirmwareUploadPart,
            Frame::FirmwareStartUpdate => FrameId::FirmwareStartUpdate,
            Frame::FirmwareUploadFinished => FrameId::FirmwareUploadFinished,
        }
    }

    /// A frame is constructible iff its 24-bit positions are in range.
    pub open spec fn wf(self) -> bool {
        match self {
            Frame::FirmwareUploadPartChangePos(v) => v.wf(),
            Frame::FirmwareUploadPart(p) => p.wf(),
            _ => true,
        }
    }

    /// Exec mirror of [`Frame::spec_id`].
    pub fn id(&self) -> (r: FrameId)
        ensures
            r == self.spec_id(),
    {
        match self {
            Frame::Serial(_) => FrameId::Serial,
            Frame::DynId(_) => FrameId::DynId,
            Frame::HardwareVersion(_) => FrameId::HardwareVersion,
            Frame::FirmwareVersion(_) => FrameId::FirmwareVersion,
            Frame::PendingFirmwareVersion(_) => FrameId::PendingFirmwareVersion,
            Frame::FirmwareUploadPartChangePos(_) => FrameId::FirmwareUploadPartChangePos,
            Frame::FirmwareUploadPause(_) => FrameId::FirmwareUploadPause,
            Frame::FirmwareUploadPart(_) => FrameId::FirmwareUploadPart,
            Frame::FirmwareStartUpdate => FrameId::FirmwareStartUpdate,
            Frame::FirmwareUploadFinished => FrameId::FirmwareUploadFinished,
        }
    }

    /// Decodes one raw payload under the given identifier, by the
    /// per-identifier length rules.
    pub fn parse_frame(frame_id: FrameId, data: ParserType<'_>) -> (r: Result<Frame, ParseError>)
        ensures
            r == spec_parse(frame_id, data@),
    {
        match frame_id {
            FrameId::Serial => match data {
                ParserType::Remote(len) => if len == 5 {
                    Ok(Frame::Serial(Type::Remote))
                } else {
                    Err(ParseError::WrongDlc)
                },
                ParserType::Data(b) => if b.len() == 5 {
                    let s = serial::Serial([b[0], b[1], b[2], b[3], b[4]]);
                    proof {
                        let bs = payload_bytes(data@);
                        assert(s.0@ =~= seq![bs[0], bs[1], bs[2], bs[3], bs[4]]);
                        assert(s.0 =~= [bs[0], bs[1], bs[2], bs[3], bs[4]]);
                    }
                    Ok(Frame::Serial(Type::Data(s)))
                } else {
                    Err(ParseError::WrongDataSize)
                },
            },
            FrameId::DynId => match data {
                ParserType::Remote(_) => Err(ParseError::RemoteFrame),
                ParserType::Data(b) => if b.len() == 6 {
                    Ok(Frame::DynId(dyn_id::Data::from_bytes(b)))
                } else {
                    Err(ParseError::WrongDataSize)
                },
            },
            FrameId::HardwareVersion => match data {
                ParserType::Remote(len) => if len == 8 {
                    Ok(Frame::HardwareVersion(Type::Remote))
                } else {
                    Err(ParseError::WrongDlc)
                },
                ParserType::Data(b) => if b.len() == 8 {
                    Ok(Frame::HardwareVersion(Type::Data(version::Version::from_bytes(b))))
                } else {
                    Err(ParseError::WrongDlc)
                },
            },
            FrameId::FirmwareVersion => match data {
                ParserType::Remote(len) => if len == 8 {
                    Ok(Frame::FirmwareVersion(Type::Remote))
                } else {
                    Err(ParseError::WrongDlc)
                },
                ParserType::Data(b) => if b.len() == 8 {
                    Ok(Frame::FirmwareVersion(Type::Data(version::Version::from_bytes(b))))
                } else {
                    Err(ParseError::WrongDlc)
                },
            },
            FrameId::PendingFirmwareVersion => match data {
                ParserType::Remote(len) => if len == 8 {
                    Ok(Frame::PendingFirmwareVersion(Type::Remote))
                } else {
                    Err(ParseError::WrongDlc)
                },
                ParserType::Data(b) => if b.len() == 0 {
                    Ok(Frame::PendingFirmwareVersion(Type::Data(None)))
                } else if b.len() == 8 {
                    Ok(
                        Frame::PendingFirmwareVersion(
                            Type::Data(Some(version::Version::from_bytes(b))),
                        ),
                    )
                } else {
                    Err(ParseError::WrongDlc)
                },
            },
            FrameId::FirmwareUploadPartChangePos => match data {
                ParserType::Remote(_) => Err(ParseError::RemoteFrame),
                ParserType::Data(b) => if b.len() == 3 {
                    let v = firmware::UploadPartChangePos::from_bytes(b);
                    proof {
                        firmware::UploadPartChangePos::lemma_spec_new(v.spec_pos(), v);
                    }
                    Ok(Frame::FirmwareUploadPartChangePos(v))
                } else {
                    Err(ParseError::WrongDataSize)
                },
            },
            FrameId::FirmwareUploadPart => match data {
                ParserType::Remote(_) => Err(ParseError::RemoteFrame),
                ParserType::Data(b) => if b.len() == 8 {
                    let p = firmware::UploadPart::from_bytes(b);
                    proof {
                        let bs = payload_bytes(data@);
                        assert(p.spec_data() =~= [bs[3], bs[4], bs[5], bs[6], bs[7]]);
                        firmware::UploadPart::lemma_spec_new(p.spec_position(), p.spec_data(), p);
                    }
                    Ok(Frame::FirmwareUploadPart(p))
                } else {
                    Err(ParseError::WrongDataSize)
                },
            },
            FrameId::FirmwareUploadPause => match data {
                ParserType::Remote(_) => Err(ParseError::RemoteFrame),
                ParserType::Data(b) => if b.len() == 1 {
                    Ok(Frame::FirmwareUploadPause(b[0] != 0))
                } else {
                    Err(ParseError::WrongDataSize)
                },
            },
            FrameId::FirmwareUploadFinished => match data {
                ParserType::Remote(_) => Err(ParseError::RemoteFrame),
                ParserType::Data(_) => Ok(Frame::FirmwareUploadFinished),
            },
            FrameId::FirmwareStartUpdate => match data {
                ParserType::Remote(_) => Err(ParseError::RemoteFrame),
                ParserType::Data(_) => Ok(Frame::FirmwareStartUpdate),
            },
        }
    }

    /// Encodes a frame to the identifier and raw payload it travels as.
    /// The mapping is total on constructible frames.
    pub fn raw_frame(&self) -> (r: (FrameId, RawType))
        requires
            self.wf(),
        ensures
            r.0 == self.spec_id(),
            r.1@ == spec_encode_payload(*self),
    {
        match self {
            Frame::Serial(v) => match v {
                Type::Remote => (FrameId::Serial, RawType::Remote(5)),
                Type::Data(s) => (FrameId::Serial, RawType::new_data(s.0.as_slice())),
            },
            Frame::DynId(d) => {
                let b = d.to_bytes();
                (FrameId::DynId, RawType::new_data(b.as_slice()))
            },
            Frame::HardwareVersion(v) => match v {
                Type::Remote => (FrameId::HardwareVersion, RawType::Remote(8)),
                Type::Data(ver) => {
                    let b = ver.to_bytes();
                    (FrameId::HardwareVersion, RawType::new_data(b.as_slice()))
                },
            },
            Frame::FirmwareVersion(v) => match v {
                Type::Remote => (FrameId::FirmwareVersion, RawType::Remote(8)),
                Type::Data(ver) => {
                    let b = ver.to_bytes();
                    (FrameId::FirmwareVersion, RawType::new_data(b.as_slice()))
                },
            },
            Frame::PendingFirmwareVersion(v) => match v {
                Type::Remote => (FrameId::PendingFirmwareVersion, RawType::Remote(8)),
                Type::Data(Some(ver)) => {
                    let b = ver.to_bytes();
                    (FrameId::PendingFirmwareVersion, RawType::new_data(b.as_slice()))
                },
                Type::Data(None) => {
                    let r = (FrameId::PendingFirmwareVersion, RawType::Data(Vec::new()));
                    proof {
                        assert(payload_bytes(r.1@) =~= Seq::<u8>::empty());
                    }
                    r
                },
            },
            Frame::FirmwareUploadPartChangePos(v) => {
                let b = v.to_bytes();
                (FrameId::FirmwareUploadPartChangePos, RawType::new_data(b.as_slice()))
            },
            Frame::FirmwareUploadPause(v) => {
                let b = [if *v {
                    1u8
                } else {
                    0u8
                }];
                let r = (FrameId::FirmwareUploadPause, RawType::new_data(b.as_slice()));
                proof {
                    assert(payload_bytes(r.1@) =~= seq![if *v { 1u8 } else { 0u8 }]);
                }
                r
            },
            Frame::FirmwareUploadPart(p) => {
                let b = p.to_bytes();
                (FrameId::FirmwareUploadPart, RawType::new_data(b.as_slice()))
            },
            Frame::FirmwareStartUpdate => {
                let r = (FrameId::FirmwareStartUpdate, RawType::Data(Vec::new()));
                proof {
                    assert(payload_bytes(r.1@) =~= Seq::<u8>::empty());
                }
                r
            },
            Frame::FirmwareUploadFinished => {
                let r = (FrameId::FirmwareUploadFinished, RawType::Data(Vec::new()));
                proof {
                    assert(payload_bytes(r.1@) =~= Seq::<u8>::empty());
                }
                r
            },
        }
    }
}

/// Decodes a whole raw CAN id and payload: splits the 29-bit id into its
/// 13-bit code and sub-id, rejects unknown codes, and parses the payload
/// under the code's identifier.
pub fn parse_raw(raw_id: u32, data: ParserType<'_>) -> (r: Result<(Frame, SubId), ParseError>)
    ensures
        r == (match FrameId::spec_from_code(FrameId::spec_code_of(raw_id)) {
            None => Err::<(Frame, SubId), ParseError>(ParseError::UnknownId),
            Some(id) => match spec_parse(id, data@) {
                Ok(f) => Ok((f, SubId(FrameId::spec_sub_id_of(raw_id)))),
                Err(e) => Err(e),
            },
        }),
{
    match FrameId::try_from_u32_with_sub_id(raw_id) {
        None => Err(ParseError::UnknownId),
        Some((id, sub_id)) => match Frame::parse_frame(id, data) {
            Ok(f) => Ok((f, sub_id)),
            Err(e) => Err(e),
        },
    }
}

/// The raw payload a frame encodes to.
pub open spec fn spec_encode_payload(f: Frame) -> Payload {
    match f {
        Frame::Serial(Type::Remote) => Payload::Remote(5),
        Frame::Serial(Type::Data(s)) => Payload::Bytes(s.0@),
        Frame::DynId(d) => Payload::Bytes(d.spec_bytes()),
        Frame::HardwareVersion(Type::Remote) => Payload::Remote(8),
        Frame::HardwareVersion(Type::Data(v)) => Payload::Bytes(v.spec_bytes()),
        Frame::FirmwareVersion(Type::Remote) => Payload::Remote(8),
        Frame::FirmwareVersion(Type::Data(v)) => Payload::Bytes(v.spec_bytes()),
        Frame::PendingFirmwareVersion(Type::Remote) => Payload::Remote(8),
        Frame::PendingFirmwareVersion(Type::Data(None)) => Payload::Bytes(Seq::empty()),
        Frame::PendingFirmwareVersion(Type::Data(Some(v))) => Payload::Bytes(v.spec_bytes()),
        Frame::FirmwareUploadPartChangePos(v) => Payload::Bytes(v.spec_bytes()),
        Frame::FirmwareUploadPause(v) => Payload::Bytes(
            seq![
                if v {
                    1u8
                } else {
                    0u8
                },
            ],
        ),
        Frame::FirmwareUploadPart(p) => Payload::Bytes(p.spec_bytes()),
        Frame::FirmwareStartUpdate => Payload::Bytes(Seq::empty()),
        Frame::FirmwareUploadFinished => Payload::Bytes(Seq::empty()),
    }
}

/// The frame a raw payload decodes to under an identifier, or the error
/// rejecting it: the per-identifier length rules.
pub open spec fn spec_parse(id: FrameId, p: Payload) -> Result<Frame, ParseError> {
    match id {
        FrameId::Serial => match p {
            Payload::Remote(len) => if len == 5 {
                Ok(Frame::Serial(Type::Remote))
            } else {
                Err(ParseError::WrongDlc)
            },
            Payload::Bytes(b) => if b.len() == 5 {
                Ok(Frame::Serial(Type::Data(serial::Serial([b[0], b[1], b[2], b[3], b[4]]))))
            } else {
                Err(ParseError::WrongDataSize)
            },
        },
        FrameId::DynId => match p {
            Payload::Remote(_) => Err(ParseError::RemoteFrame),
            Payload::Bytes(b) => if b.len() == 6 {
                Ok(Frame::DynId(dyn_id::Data::spec_from_bytes(b)))
            } else {
                Err(ParseError::WrongDataSize)
            },
        },
        FrameId::HardwareVersion => match p {
            Payload::Remote(len) => if len == 8 {
                Ok(Frame::HardwareVersion(Type::Remote))
            } else {
                Err(ParseError::WrongDlc)
            },
            Payload::Bytes(b) => if b.len() == 8 {
                Ok(Frame::HardwareVersion(Type::Data(version::Version::spec_from_bytes(b))))
            } else {
                Err(ParseError::WrongDlc)
            },
        },
        FrameId::FirmwareVersion => match p {
            Payload::Remote(len) => if len == 8 {
                Ok(Frame::FirmwareVersion(Type::Remote))
            } else {
                Err(ParseError::WrongDlc)
            },
            Payload::Bytes(b) => if b.len() == 8 {
                Ok(Frame::FirmwareVersion(Type::Data(version::Version::spec_from_bytes(b))))
            } else {
                Err(ParseError::WrongDlc)
            },
        },
        FrameId::PendingFirmwareVersion => match p {
            Payload::Remote(len) => if len == 8 {
                Ok(Frame::PendingFirmwareVersion(Type::Remote))
            } else {
                Err(ParseError::WrongDlc)
            },
            Payload::Bytes(b) => if b.len() == 0 {
                Ok(Frame::PendingFirmwareVersion(Type::Data(None)))
            } else if b.len() == 8 {
                Ok(
                    Frame::PendingFirmwareVersion(
                        Type::Data(Some(version::Version::spec_from_bytes(b))),
                    ),
                )
            } else {
                Err(ParseError::WrongDlc)
            },
        },
        FrameId::FirmwareUploadPartChangePos => match p {
            Payload::Remote(_) => Err(ParseError::RemoteFrame),
            Payload::Bytes(b) => if b.len() == 3 {
                Ok(
                    Frame::FirmwareUploadPartChangePos(
                        firmware::UploadPartChangePos::spec_new(be24_val_usize(b)),
                    ),
                )
            } else {
                Err(ParseError::WrongDataSize)
            },
        },
        FrameId::FirmwareUploadPart => match p {
            Payload::Remote(_) => Err(ParseError::RemoteFrame),
            Payload::Bytes(b) => if b.len() == 8 {
                Ok(
                    Frame::FirmwareUploadPart(
                        firmware::UploadPart::spec_new(
                            be24_val_usize(b.take(3)),
                            [b[3], b[4], b[5], b[6], b[7]],
                        ),
                    ),
                )
            } else {
                Err(ParseError::WrongDataSize)
            },
        },
        FrameId::FirmwareUploadPause => match p {
            Payload::Remote(_) => Err(ParseError::RemoteFrame),
            Payload::Bytes(b) => if b.len() == 1 {
                Ok(Frame::FirmwareUploadPause(b[0] != 0))
            } else {
                Err(ParseError::WrongDataSize)
            },
        },
        FrameId::FirmwareUploadFinished => match p {
            Payload::Remote(_) => Err(ParseError::RemoteFrame),
            Payload::Bytes(_) => Ok(Frame::FirmwareUploadFinished),
        },
        FrameId::FirmwareStartUpdate => match p {
            Payload::Remote(_) => Err(ParseError::RemoteFrame),
            Payload::Bytes(_) => Ok(Frame::FirmwareStartUpdate),
        },
    }
}

/// [`firmware::be24_val`] of a 3-byte field, as a `usize`.
pub open spec fn be24_val_usize(b: Seq<u8>) -> usize
    recommends
        b.len() == 3,
{
    firmware::be24_val(b) as usize
}

/// Every encoded payload fits one CAN frame: at most 8 data bytes, or a
/// requested length of at most 8.
pub proof fn lemma_encode_fits(f: Frame)
    ensures
        match spec_encode_payload(f) {
            Payload::Bytes(b) => b.len() <= 8,
            Payload::Remote(d) => d <= 8,
        },
{
}

/// Whatever parses is constructible: the parser only builds well-formed
/// frames.
pub proof fn lemma_parse_wf(id: FrameId, p: Payload)
    ensures
        spec_parse(id, p) matches Ok(f) ==> f.wf(),
{
    match spec_parse(id, p) {
        Ok(f) => match f {
            Frame::FirmwareUploadPartChangePos(v) => {
                let b = payload_bytes(p);
                firmware::UploadPartChangePos::lemma_spec_new(be24_val_usize(b), v);
            },
            Frame::FirmwareUploadPart(pt) => {
                let b = payload_bytes(p);
                firmware::UploadPart::lemma_spec_new(
                    be24_val_usize(b.take(3)),
                    [b[3], b[4], b[5], b[6], b[7]],
                    pt,
                );
            },
            _ => {},
        },
        Err(_) => {},
    }
}

/// Whatever parses travels under the identifier it was parsed for.
pub proof fn lemma_parse_id(id: FrameId, p: Payload)
    ensures
        spec_parse(id, p) matches Ok(f) ==> f.spec_id() == id,
{
}

/// Round-trip: decoding the encoding of any constructible frame returns
/// that frame.
pub proof fn lemma_frame_round_trip(f: Frame)
    requires
        f.wf(),
    ensures
        spec_parse(f.spec_id(), spec_encode_payload(f)) == Ok::<Frame, ParseError>(f),
{
    broadcast use vstd::array::group_array_axioms;

    match f {
        Frame::Serial(Type::Data(s)) => {
            let b = payload_bytes(spec_encode_payload(f));
            assert(serial::Serial([b[0], b[1], b[2], b[3], b[4]]).0 =~= s.0);
        },
        Frame::DynId(d) => {
            dyn_id::lemma_dyn_id_bytes_round_trip(d);
        },
        Frame::HardwareVersion(Type::Data(v)) => {
            version::lemma_version_bytes_round_trip(v);
        },
        Frame::FirmwareVersion(Type::Data(v)) => {
            version::lemma_version_bytes_round_trip(v);
        },
        Frame::PendingFirmwareVersion(Type::Data(Some(v))) => {
            version::lemma_version_bytes_round_trip(v);
        },
        Frame::FirmwareUploadPartChangePos(v) => {
            firmware::lemma_be24_round_trip(v.spec_pos() as int);
            firmware::UploadPartChangePos::lemma_spec_new(v.spec_pos(), v);
        },
        Frame::FirmwareUploadPart(p) => {
            let b = p.spec_bytes();
            assert(b.take(3) =~= firmware::be24_of(p.spec_position() as int));
            firmware::lemma_be24_round_trip(p.spec_position() as int);
            assert([b[3], b[4], b[5], b[6], b[7]] =~= p.spec_data());
            firmware::UploadPart::lemma_spec_new(p.spec_position(), p.spec_data(), p);
        },
        _ => {},
    }
}

} // verus!
