//! Device-side protocol logic: the addressing CRC, the receive dispatcher
//! invoked per decoded frame, and the main-loop page-writer steps.
//!
//! The dispatcher and the steps are pure decisions over the device state;
//! the surrounding interrupt plumbing, the CAN driver and the flash
//! peripheral perform the actions they return.

use vstd::prelude::*;
use crate::firmware_update::FirmwareUpdate;
use crate::frame_id::SubId;
use crate::frames::firmware::{UploadPartChangePos, MAX_POSITION};
use crate::frames::serial::Serial;
use crate::frames::version::Version;
use crate::frames::{Frame, Type};
use crate::tx_queue::{enqueued_one, spec_pack, PriorityFrame, TxQueue};

verus! {

/// Flash erase/program unit.
pub const PAGE_SIZE: usize = 1024;

/// Bytes carried by one upload part.
pub const PART_SIZE: usize = 5;

/// The accumulator buffers one page plus one part.
pub const BUFF_SIZE: usize = 1024 + 5;

/// Offset of the staging region above the flash base: past the bootloader
/// and the application.
pub const NEW_FW_BEGIN: u32 = (20 + 53) * 1024;

/// One step of the addressing CRC: shift out the top bit, folding in the
/// polynomial 0x07 when it was set.
pub open spec fn crc8_bit(c: u8) -> u8 {
    if c >= 0x80 {
        (((c as int * 2) % 0x100) as u8) ^ 0x07
    } else {
        ((c as int * 2) % 0x100) as u8
    }
}

/// `k` CRC steps.
pub open spec fn crc8_bits(c: u8, k: nat) -> u8
    decreases k,
{
    if k == 0 {
        c
    } else {
        crc8_bit(crc8_bits(c, (k - 1) as nat))
    }
}

/// One byte folded into the CRC: xor in, then eight bit steps.
pub open spec fn crc8_byte(crc: u8, b: u8) -> u8 {
    crc8_bits(crc ^ b, 8)
}

/// The addressing CRC-8 folded over `data` starting from `init`:
/// polynomial 0x07, no reflection, no final xor (the SMBus CRC-8
/// parameters). Host and device must agree on it bit for bit.
pub open spec fn crc8_fold(data: Seq<u8>, init: u8) -> u8
    decreases data.len(),
{
    if data.len() == 0 {
        init
    } else {
        crc8_fold(data.skip(1), crc8_byte(init, data[0]))
    }
}

/// Exec mirror of [`crc8_fold`].
pub fn crc8(data: &[u8], init: u8) -> (r: u8)
    ensures
        r == crc8_fold(data@, init),
{
    let mut crc = init;
    let mut i: usize = 0;
    proof {
        assert(data@.skip(0) =~= data@);
    }
    while i < data.len()
        invariant
            i <= data@.len(),
            crc8_fold(data@, init) == crc8_fold(data@.skip(i as int), crc),
        decreases data@.len() - i,
    {
        let start = crc ^ data[i];
        let ghost c0 = start;
        let mut c = start;
        let mut k: usize = 0;
        while k < 8
            invariant
                k <= 8,
                c == crc8_bits(c0, k as nat),
            decreases 8 - k,
        {
            let shifted = ((c as u16 * 2) % 0x100) as u8;
            c = if c >= 0x80 {
                shifted ^ 0x07
            } else {
                shifted
            };
            k = k + 1;
            proof {
                assert(c == crc8_bits(c0, k as nat));
            }
        }
        proof {
            assert(c == crc8_byte(crc, data@[i as int]));
            assert(data@.skip(i as int)[0] == data@[i as int]);
            assert(data@.skip(i as int).skip(1) =~= data@.skip(i as int + 1));
        }
        crc = c;
        i = i + 1;
    }
    proof {
        assert(data@.skip(data@.len() as int) =~= Seq::<u8>::empty());
    }
    crc
}

/// The sub-identifier a device adopts for dynamic id `dyn_id`: the
/// addressing CRC over its serial then the id byte, above the id byte.
pub open spec fn adopted_sub_id(serial: Serial, dyn_id: u8) -> int {
    crc8_fold(seq![dyn_id], crc8_fold(serial.0@, 0)) * 0x100 + dyn_id
}

/// The device's upload state shared between dispatcher and main loop.
pub struct FwUpload {
    /// The part accumulator.
    pub data: FirmwareUpdate<PAGE_SIZE, PART_SIZE, BUFF_SIZE>,
    /// Backpressure raised towards the host.
    pub paused: bool,
    /// An upload was completed and awaits main-loop housekeeping.
    pub finished: bool,
    /// The staging region held a valid record when last validated.
    pub has_pending_fw: bool,
}

impl Default for FwUpload {
    /// Upload state at boot: an empty accumulator, no flags raised.
    fn default() -> (r: Self)
        ensures
            r.data.is_fresh(),
            r.data.wf(),
            !r.paused && !r.finished && !r.has_pending_fw,
    {
        FwUpload { data: Default::default(), paused: false, finished: false, has_pending_fw: false }
    }
}

/// Everything the receive dispatcher reads or writes.
pub struct DeviceState {
    /// Upload state.
    pub fw_upload: FwUpload,
    /// The active sub-identifier; zero until the host assigns one.
    pub sub_id: SubId,
    /// A pending-version query awaits the main loop.
    pub pending_fw_version_required: bool,
}

impl DeviceState {
    /// The accumulator's invariant carries over the whole state.
    pub open spec fn wf(&self) -> bool {
        self.fw_upload.data.wf()
    }

    /// Device state at boot.
    pub fn new() -> (r: DeviceState)
        ensures
            r.wf(),
            r.fw_upload.data.is_fresh(),
            !r.fw_upload.paused && !r.fw_upload.finished && !r.fw_upload.has_pending_fw,
            r.sub_id.0 == 0,
            !r.pending_fw_version_required,
    {
        DeviceState {
            fw_upload: Default::default(),
            sub_id: SubId(0),
            pending_fw_version_required: false,
        }
    }
}

/// What the dispatcher asks its caller to perform beyond queueing frames.
#[derive(Debug, Copy, Clone, Eq, PartialEq, Structural)]
pub enum DispatchAction {
    /// Nothing beyond the state change and the queued frames.
    Nothing,
    /// Reboot into the bootloader: a start-update command arrived and a
    /// valid image is staged.
    Reboot,
    /// Report on the diagnostic channel that no valid image is staged.
    NoPendingFirmware,
}

/// A sequence of `n` zero bytes: the padding appended when an upload
/// finishes off a page boundary.
pub open spec fn zeros(n: int) -> Seq<u8> {
    Seq::new(n as nat, |i: int| 0u8)
}

/// The receive dispatcher: reacts to one decoded frame.
///
/// A serial request queues this device's serial. A dynamic-id assignment
/// for this serial adopts the derived sub-id. A pending-version request
/// raises the main-loop flag. An upload part goes to the accumulator and
/// its outcome drives flow control: backpressure on a full page or full
/// buffer, a change-position request on a rewind or gap. An upload-finished
/// frame pads the accumulator to the page boundary with zeros and raises
/// backpressure and the finished flag. A start-update command asks for a
/// reboot iff a valid image is staged. Everything else is ignored.
pub fn handle_frame(
    own_serial: &Serial,
    state: &mut DeviceState,
    queue: &mut TxQueue,
    frame: &Frame,
) -> (r: DispatchAction)
    requires
        old(state).wf(),
        old(queue).wf(),
        frame.wf(),
    ensures
        final(state).wf(),
        final(queue).wf(),
        match *frame {
            Frame::Serial(Type::Remote) => {
                &&& *final(state) == *old(state)
                &&& enqueued_one(old(queue), final(queue), Frame::Serial(Type::Data(*own_serial)))
                &&& r == DispatchAction::Nothing
            },
            Frame::DynId(d) => {
                &&& final(queue).contents() == old(queue).contents()
                &&& r == DispatchAction::Nothing
                &&& (if d.serial.0@ == own_serial.0@ {
                    &&& final(state).sub_id.0 == adopted_sub_id(d.serial, d.dyn_id)
                    &&& final(state).fw_upload == old(state).fw_upload
                    &&& final(state).pending_fw_version_required == old(state).pending_fw_version_required
                } else {
                    *final(state) == *old(state)
                })
            },
            Frame::PendingFirmwareVersion(Type::Remote) => {
                &&& final(queue).contents() == old(queue).contents()
                &&& final(state).pending_fw_version_required
                &&& final(state).fw_upload == old(state).fw_upload
                &&& final(state).sub_id == old(state).sub_id
                &&& r == DispatchAction::Nothing
            },
            Frame::FirmwareUploadPart(p) => {
                &&& r == DispatchAction::Nothing
                &&& final(state).sub_id == old(state).sub_id
                &&& final(state).pending_fw_version_required == old(state).pending_fw_version_required
                &&& final(state).fw_upload.finished == old(state).fw_upload.finished
                &&& final(state).fw_upload.has_pending_fw == old(state).fw_upload.has_pending_fw
                &&& {
                    let fw0 = old(state).fw_upload.data;
                    let fw1 = final(state).fw_upload.data;
                    let n = p.spec_position();
                    if fw0.accepts(n) {
                        &&& fw1.spec_loaded() == n + 1
                        &&& fw1.spec_flushed() == (if n == 0 {
                            Seq::<u8>::empty()
                        } else {
                            fw0.spec_flushed()
                        })
                        &&& fw1.stream() == fw0.stream().take(n * (PART_SIZE as int))
                            + p.spec_data()@
                        &&& (if fw1.buf().len() >= PAGE_SIZE && !old(state).fw_upload.paused {
                            final(state).fw_upload.paused && enqueued_one(
                                old(queue),
                                final(queue),
                                Frame::FirmwareUploadPause(true),
                            )
                        } else {
                            final(state).fw_upload.paused == old(state).fw_upload.paused && final(queue).contents() == old(queue).contents()
                        })
                    } else if fw0.rejects_full(n) {
                        &&& fw1.unchanged_from(&fw0)
                        &&& (if !old(state).fw_upload.paused {
                            final(state).fw_upload.paused && enqueued_one(
                                old(queue),
                                final(queue),
                                Frame::FirmwareUploadPause(true),
                            )
                        } else {
                            final(state).fw_upload.paused && final(queue).contents() == old(queue).contents()
                        })
                    } else {
                        let resume_at = if fw0.rejects_ahead(n) {
                            fw0.spec_loaded() as int
                        } else {
                            fw0.oldest_buffered()
                        };
                        &&& fw1.unchanged_from(&fw0)
                        &&& final(state).fw_upload.paused == old(state).fw_upload.paused
                        &&& (if resume_at <= MAX_POSITION {
                            enqueued_one(
                                old(queue),
                                final(queue),
                                Frame::FirmwareUploadPartChangePos(
                                    UploadPartChangePos::spec_new(resume_at as usize),
                                ),
                            )
                        } else {
                            final(queue).contents() == old(queue).contents()
                        })
                    }
                }
            },
            Frame::FirmwareUploadFinished => {
                &&& r == DispatchAction::Nothing
                &&& final(state).sub_id == old(state).sub_id
                &&& final(state).pending_fw_version_required == old(state).pending_fw_version_required
                &&& final(state).fw_upload.has_pending_fw == old(state).fw_upload.has_pending_fw
                &&& final(state).fw_upload.paused && final(state).fw_upload.finished
                &&& enqueued_one(old(queue), final(queue), Frame::FirmwareUploadPause(true))
                &&& {
                    let fw0 = old(state).fw_upload.data;
                    let fw1 = final(state).fw_upload.data;
                    &&& fw1.spec_flushed() == fw0.spec_flushed()
                    &&& fw1.buf() == fw0.buf() + zeros(fw1.buf().len() - fw0.buf().len())
                    &&& (fw1.buf().len() >= PAGE_SIZE || fw1.spec_loaded() == MAX_POSITION + 1)
                }
            },
            Frame::FirmwareStartUpdate => {
                &&& *final(state) == *old(state)
                &&& final(queue).contents() == old(queue).contents()
                &&& r == (if old(state).fw_upload.has_pending_fw {
                    DispatchAction::Reboot
                } else {
                    DispatchAction::NoPendingFirmware
                })
            },
            _ => {
                &&& *final(state) == *old(state)
                &&& final(queue).contents() == old(queue).contents()
                &&& r == DispatchAction::Nothing
            },
        },
{
    match frame {
        Frame::Serial(Type::Remote) => {
            enqueue_reply(queue, Frame::Serial(Type::Data(*own_serial)));
            DispatchAction::Nothing
        },
        Frame::DynId(d) => {
            if d.serial == *own_serial {
                let id_byte = [d.dyn_id];
                let crc = crc8(id_byte.as_slice(), crc8(d.serial.0.as_slice(), 0));
                proof {
                    assert(id_byte@ =~= seq![d.dyn_id]);
                }
                state.sub_id = SubId::from_be_pair([crc, d.dyn_id]);
            }
            DispatchAction::Nothing
        },
        Frame::PendingFirmwareVersion(Type::Remote) => {
            state.pending_fw_version_required = true;
            DispatchAction::Nothing
        },
        Frame::FirmwareUploadPart(p) => {
            let position = p.position();
            match state.fw_upload.data.put_part(p.data(), position) {
                Ok(_) => {
                    if state.fw_upload.data.page_is_ready() && !state.fw_upload.paused {
                        state.fw_upload.paused = true;
                        enqueue_reply(queue, Frame::FirmwareUploadPause(true));
                    }
                },
                Err(crate::firmware_update::PutPartError::NotEnoughSpace) => {
                    if !state.fw_upload.paused {
                        state.fw_upload.paused = true;
                        enqueue_reply(queue, Frame::FirmwareUploadPause(true));
                    }
                },
                Err(crate::firmware_update::PutPartError::LessOfMinPart(at)) => {
                    send_change_pos(queue, at);
                },
                Err(crate::firmware_update::PutPartError::MoreOfMaxPart(at)) => {
                    send_change_pos(queue, at);
                },
            }
            DispatchAction::Nothing
        },
        Frame::FirmwareUploadFinished => {
            pad_to_page(&mut state.fw_upload.data);
            state.fw_upload.paused = true;
            state.fw_upload.finished = true;
            enqueue_reply(queue, Frame::FirmwareUploadPause(true));
            DispatchAction::Nothing
        },
        Frame::FirmwareStartUpdate => {
            if state.fw_upload.has_pending_fw {
                DispatchAction::Reboot
            } else {
                DispatchAction::NoPendingFirmware
            }
        },
        _ => DispatchAction::Nothing,
    }
}

/// Queues one reply frame; a full queue drops it, and the caller's
/// transmit-complete interrupt drains the mailboxes either way.
fn enqueue_reply(queue: &mut TxQueue, frame: Frame)
    requires
        old(queue).wf(),
        frame.wf(),
    ensures
        final(queue).wf(),
        enqueued_one(old(queue), final(queue), frame),
{
    let _ = crate::tx_queue::enqueue_frame(queue, PriorityFrame(frame));
}

/// Queues a change-position request for `at`; a resynchronisation point
/// beyond the 24-bit wire field cannot be sent and is dropped.
fn send_change_pos(queue: &mut TxQueue, at: usize)
    requires
        old(queue).wf(),
    ensures
        final(queue).wf(),
        at <= MAX_POSITION ==> enqueued_one(
            old(queue),
            final(queue),
            Frame::FirmwareUploadPartChangePos(UploadPartChangePos::spec_new(at)),
        ),
        at > MAX_POSITION ==> final(queue).contents() == old(queue).contents(),
{
    match UploadPartChangePos::new(at) {
        Some(v) => {
            proof {
                UploadPartChangePos::lemma_spec_new(at, v);
            }
            enqueue_reply(queue, Frame::FirmwareUploadPartChangePos(v));
        },
        None => {},
    }
}

/// Pads the accumulator with zero parts until a full page is buffered (or
/// the part numbers run out of their 24-bit field).
fn pad_to_page(fw: &mut FirmwareUpdate<PAGE_SIZE, PART_SIZE, BUFF_SIZE>)
    requires
        old(fw).wf(),
    ensures
        final(fw).wf(),
        final(fw).spec_flushed() == old(fw).spec_flushed(),
        final(fw).buf() == old(fw).buf() + zeros(final(fw).buf().len() - old(fw).buf().len()),
        final(fw).buf().len() >= PAGE_SIZE || final(fw).spec_loaded() == MAX_POSITION + 1,
{
    loop
        invariant
            fw.wf(),
            fw.spec_flushed() == old(fw).spec_flushed(),
            fw.buf() == old(fw).buf() + zeros(fw.buf().len() - old(fw).buf().len()),
        ensures
            fw.buf().len() >= PAGE_SIZE || fw.spec_loaded() == MAX_POSITION + 1,
        decreases BUFF_SIZE - fw.buf().len() + (MAX_POSITION + 1 - fw.spec_loaded()),
    {
        if fw.page_is_ready() {
            break ;
        }
        let next = fw.loaded_parts_count();
        if next > MAX_POSITION {
            break ;
        }
        let ghost before = fw.buf();
        let res = fw.put_part([0, 0, 0, 0, 0], next);
        proof {
            assert(res is Ok);
            assert(fw.buf() =~= before + [0u8, 0, 0, 0, 0]@);
            assert(fw.buf() =~= old(fw).buf() + zeros(fw.buf().len() - old(fw).buf().len()));
        }
    }
}

/// Main-loop step: takes the first buffered page for programming. The
/// caller erases and programs the returned page at
/// [`staging_page_address`] of its index; the page leaves the buffer and a
/// fresh partial image invalidates the validator's cached verdict.
pub fn take_ready_page(fw: &mut FwUpload) -> (r: Option<(Vec<u8>, usize)>)
    requires
        old(fw).data.wf(),
    ensures
        final(fw).data.wf(),
        r is Some <==> old(fw).data.buf().len() >= PAGE_SIZE,
        r matches Some(p) ==> {
            &&& p.0@ == old(fw).data.buf().take(PAGE_SIZE as int)
            &&& p.1 == old(fw).data.spec_loaded() * PART_SIZE / (PAGE_SIZE as int) - 1
            &&& final(fw).data.buf() == old(fw).data.buf().skip(PAGE_SIZE as int)
            &&& final(fw).data.spec_flushed() == old(fw).data.spec_flushed() + old(fw).data.buf().take(PAGE_SIZE as int)
            &&& final(fw).data.spec_loaded() == old(fw).data.spec_loaded()
            &&& !final(fw).has_pending_fw
            &&& final(fw).paused == old(fw).paused && final(fw).finished == old(fw).finished
        },
        r is None ==> *final(fw) == *old(fw),
{
    match fw.data.get_page() {
        Some(page) => {
            fw.data.remove_page();
            fw.has_pending_fw = false;
            Some(page)
        },
        None => None,
    }
}

/// Main-loop step: acknowledges a finished upload by resetting the
/// accumulator; reports whether there was one.
pub fn finish_step(fw: &mut FwUpload) -> (r: bool)
    requires
        old(fw).data.wf(),
    ensures
        final(fw).data.wf(),
        r == old(fw).finished,
        r ==> !final(fw).finished && final(fw).data.is_fresh() && final(fw).paused == old(fw).paused && final(fw).has_pending_fw == old(fw).has_pending_fw,
        !r ==> *final(fw) == *old(fw),
{
    if fw.finished {
        fw.finished = false;
        fw.data.reset();
        true
    } else {
        false
    }
}

/// Main-loop step: clears backpressure once the loop has drained pages,
/// returning the un-pause frame to queue; `None` when none was raised.
pub fn unpause_step(fw: &mut FwUpload) -> (r: Option<Frame>)
    requires
        old(fw).data.wf(),
    ensures
        final(fw).data.wf(),
        old(fw).paused ==> r == Some(Frame::FirmwareUploadPause(false)) && !final(fw).paused
            && final(fw).data == old(fw).data && final(fw).finished == old(fw).finished && final(fw).has_pending_fw == old(fw).has_pending_fw,
        !old(fw).paused ==> r is None && *final(fw) == *old(fw),
{
    if fw.paused {
        fw.paused = false;
        Some(Frame::FirmwareUploadPause(false))
    } else {
        None
    }
}

/// Main-loop step: answers a pending-version query from the validator's
/// verdict, caching whether a valid image is staged, and returns the reply
/// to queue.
pub fn pending_version_step(fw: &mut FwUpload, validated: Option<Version>) -> (r: Frame)
    requires
        old(fw).data.wf(),
    ensures
        final(fw).data.wf(),
        final(fw).has_pending_fw == validated is Some,
        r == Frame::PendingFirmwareVersion(Type::Data(validated)),
        final(fw).data == old(fw).data && final(fw).paused == old(fw).paused && final(fw).finished
            == old(fw).finished,
{
    fw.has_pending_fw = validated.is_some();
    Frame::PendingFirmwareVersion(Type::Data(validated))
}

/// The flash address of the staging region's `index`-th page.
pub fn staging_page_address(index: u32) -> (r: u32)
    requires
        NEW_FW_BEGIN + index * (PAGE_SIZE as u32) <= u32::MAX,
    ensures
        r == NEW_FW_BEGIN + index * (PAGE_SIZE as u32),
{
    NEW_FW_BEGIN + index * (PAGE_SIZE as u32)
}

} // verus!

