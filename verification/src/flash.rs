//! Flashing an image: what to ask of the device before anything is
//! written, what to write, and how to read the outcome.
//!
//! Nothing here talks to a device.  Each phase builds the program that the
//! caller is to run, and reads the results that the caller hands back.

use vstd::prelude::*;
use crate::bytes::{
    le_bytes_u16, le_u16, le_u32, le_u64, u16_from_le, u32_from_le, u64_from_le,
};
use crate::device::{decode_banks, RendmpDevice};
use crate::hex::{views, RendmpHex, RendmpHexView};
use crate::ops::{
    indirect_read, lemma_indirect_calls, lemma_num_calls_add, lemma_num_calls_push, num_calls,
    result_view, results_view, spec_word_result, word_result, CallResult, Dma, Op, ReadError,
};
use crate::status::{programmer_status, FlashFailure, RendmpBankStatus};

verus! {

/// The PMBus command that reads the device ID.
pub const IC_DEVICE_ID: u8 = 0xad;

/// The PMBus command that reads the device revision.
pub const IC_DEVICE_REV: u8 = 0xae;

/// The fewest NVM slots that a device may have left for it to be flashed.
pub const MIN_SLOTS: u32 = 10;

/// The most NVM slots that a device can have.
pub const MAX_SLOTS: u32 = 28;

/// What is read from the device in the course of flashing.
#[derive(Copy, Clone, Debug, PartialEq, Eq, Structural)]
pub enum Reading {
    DeviceId,
    Slots,
    Crc,
    ProgrammerStatus,
    BankStatus,
}

impl Reading {
    /// The place of the reading among the results of the program that makes
    /// it in the course of flashing: the identifying program for the device
    /// ID, the slots and the CRC, the program that looks at the outcome for
    /// the two statuses.
    pub open spec fn spec_index(self) -> int {
        match self {
            Reading::DeviceId => 0,
            Reading::Slots => 3,
            Reading::Crc => 5,
            Reading::ProgrammerStatus => 1,
            Reading::BankStatus => 3,
        }
    }

    /// The place of the reading among the results of its program.
    pub fn index(self) -> (r: usize)
        ensures
            r == self.spec_index(),
    {
        match self {
            Reading::DeviceId => 0,
            Reading::Slots => 3,
            Reading::Crc => 5,
            Reading::ProgrammerStatus => 1,
            Reading::BankStatus => 3,
        }
    }
}

/// Why flashing stops without success.
#[derive(Copy, Clone, Debug, PartialEq, Eq, Structural)]
pub enum FlashError {
    /// A program gave another number of results than it has calls.
    ResultCount { expected: usize, found: usize },
    /// A read was refused, or gave the wrong number of bytes.
    Read { what: Reading, error: ReadError },
    /// The device is a known model, and not the one that the image is for.
    DeviceMismatch { image: RendmpDevice, device: RendmpDevice },
    /// The device ID differs from that of the image.  Both are given as
    /// 32-bit values, their first byte lowest.
    DeviceIdMismatch { image_id: u32, device_id: u32 },
    /// More slots than a device can have: what was read cannot be trusted.
    SlotsTooHigh { slots: u32 },
    /// So few slots are left that flashing is refused.
    SlotsTooLow { slots: u32 },
    /// The image is on the device already, and flashing was not forced.
    CrcMatch { crc: u32 },
    /// Only a check was asked for, and the device holds another image.
    CrcMismatch { image_crc: u32, device_crc: u32 },
    /// A data record without a payload cannot be written.
    EmptyPayload { index: usize },
    /// The device refused the write of the data record at `index`.
    WriteFailed { index: usize, code: u32 },
    /// The nibble of bank `bank` in the status block is no status code;
    /// `status` is the block as it was read, its first byte lowest.
    BankInvalid { bank: usize, status: u64 },
    /// The programmer still reported this failure when the time to wait for
    /// success was over.
    Failed { failure: FlashFailure },
}

/// What to do once the CRC of the image and that of the device are known.
#[derive(Copy, Clone, Debug, PartialEq, Eq, Structural)]
pub enum CrcDecision {
    /// The CRCs differ: flash.
    Flash,
    /// The CRCs are equal, and flashing was forced.
    FlashAnyway,
    /// The CRCs are equal, and only a check was asked for: report it and
    /// stop, nothing is written.
    Matches,
}

/// What the device said before anything was written.
#[derive(Copy, Clone, Debug, PartialEq, Eq, Structural)]
pub struct Preflight {
    /// The number of NVM slots that remain.
    pub slots: u32,
    /// The CRC of the configuration in OTP.
    pub crc: u32,
    pub decision: CrcDecision,
}

/// The operations of a block read of the command `code`.
pub open spec fn block_read(read: u8, code: u8) -> Seq<Op> {
    seq![Op::Push(code), Op::PushNone, Op::Call(read), Op::DropN(2)]
}

/// The program that identifies the device: block reads of its ID and of
/// its revision, then indirect reads of its slot count and of its CRC.  Its
/// six results are, in order: the ID, the revision, the result of setting
/// the slot address, the slot count, the result of setting the CRC address,
/// the CRC.
pub open spec fn spec_identify_ops(base: Seq<Op>, dma: Dma, device: RendmpDevice) -> Seq<Op> {
    base + block_read(dma.i2c.read, IC_DEVICE_ID) + block_read(dma.i2c.read, IC_DEVICE_REV)
        + indirect_read(dma, le_bytes_u16(device.slot_register()), 4) + indirect_read(
        dma,
        le_bytes_u16(device.crc_register()),
        4,
    ) + seq![Op::Done]
}

/// Builds the program that identifies the device.
pub fn identify_ops(base: &Vec<Op>, dma: &Dma, device: &RendmpDevice) -> (ops: Vec<Op>)
    ensures
        ops@ == spec_identify_ops(base@, *dma, *device),
{
    let mut ops = base.clone();
    ops.push(Op::Push(IC_DEVICE_ID));
    ops.push(Op::PushNone);
    ops.push(Op::Call(dma.i2c.read));
    ops.push(Op::DropN(2));
    ops.push(Op::Push(IC_DEVICE_REV));
    ops.push(Op::PushNone);
    ops.push(Op::Call(dma.i2c.read));
    ops.push(Op::DropN(2));
    assert(ops@ =~= base@ + block_read(dma.i2c.read, IC_DEVICE_ID) + block_read(
        dma.i2c.read,
        IC_DEVICE_REV,
    ));
    dma.dmaread_ops(&mut ops, device.slot_addr(), 4);
    dma.dmaread_ops(&mut ops, device.crc_addr(), 4);
    ops.push(Op::Done);
    ops
}

/// Whether the device ID that was read is that of the image.  A refused
/// read and a read of other than four bytes come first; then a second byte
/// that names another known model; then any other difference.
pub open spec fn spec_check_identity(hex: RendmpHexView, result: Result<Seq<u8>, u32>) -> Result<
    (),
    FlashError,
> {
    match result {
        Err(code) => Err(
            FlashError::Read { what: Reading::DeviceId, error: ReadError::Failed { code } },
        ),
        Ok(id) => if id.len() != 4 {
            Err(
                FlashError::Read {
                    what: Reading::DeviceId,
                    error: ReadError::BadLength { found: id.len() as usize },
                },
            )
        } else if id[1] != hex.ic_device_id[1] && RendmpDevice::spec_from_id(id[1]) is Ok {
            Err(
                FlashError::DeviceMismatch {
                    image: hex.device,
                    device: RendmpDevice::spec_from_id(id[1])->Ok_0,
                },
            )
        } else if id != hex.ic_device_id {
            Err(
                FlashError::DeviceIdMismatch {
                    image_id: le_u32(hex.ic_device_id),
                    device_id: le_u32(id),
                },
            )
        } else {
            Ok(())
        },
    }
}

/// Checks the device ID that was read against that of the image.
pub fn check_identity(hex: &RendmpHex, result: &CallResult) -> (r: Result<(), FlashError>)
    ensures
        r == spec_check_identity(hex@, result_view(*result)),
{
    match result {
        Err(err) => Err(
            FlashError::Read { what: Reading::DeviceId, error: ReadError::Failed { code: *err } },
        ),
        Ok(id) => {
            if id.len() != 4 {
                return Err(
                    FlashError::Read {
                        what: Reading::DeviceId,
                        error: ReadError::BadLength { found: id.len() },
                    },
                );
            }
            if id[1] != hex.ic_device_id[1] {
                if let Ok(device) = RendmpDevice::from_id(id[1]) {
                    return Err(FlashError::DeviceMismatch { image: hex.device, device });
                }
            }
            if id[0] != hex.ic_device_id[0] || id[1] != hex.ic_device_id[1] || id[2]
                != hex.ic_device_id[2] || id[3] != hex.ic_device_id[3] {
                return Err(
                    FlashError::DeviceIdMismatch {
                        image_id: u32_from_le(hex.ic_device_id.as_slice()),
                        device_id: u32_from_le(id.as_slice()),
                    },
                );
            }
            assert(id@ =~= hex.ic_device_id@);
            Ok(())
        },
    }
}

/// A slot count is accepted when it is within `MIN_SLOTS..=MAX_SLOTS`.
pub open spec fn spec_check_slots(slots: u32) -> Result<(), FlashError> {
    if slots > MAX_SLOTS {
        Err(FlashError::SlotsTooHigh { slots })
    } else if slots < MIN_SLOTS {
        Err(FlashError::SlotsTooLow { slots })
    } else {
        Ok(())
    }
}

/// Checks that the number of slots that remain is plausible, and that
/// enough are left.
pub fn check_slots(slots: u32) -> (r: Result<(), FlashError>)
    ensures
        r == spec_check_slots(slots),
        r is Ok <==> 10 <= slots <= 28,
{
    if slots > MAX_SLOTS {
        return Err(FlashError::SlotsTooHigh { slots });
    }
    if slots < MIN_SLOTS {
        return Err(FlashError::SlotsTooLow { slots });
    }
    Ok(())
}

/// What follows from the two CRCs.  Equal CRCs stop a check with success,
/// and stop flashing unless it is forced; different CRCs fail a check, and
/// let flashing go on.
pub open spec fn spec_check_crc(image: u32, device: u32, check: bool, force: bool) -> Result<
    CrcDecision,
    FlashError,
> {
    if device == image {
        if check {
            Ok(CrcDecision::Matches)
        } else if !force {
            Err(FlashError::CrcMatch { crc: device })
        } else {
            Ok(CrcDecision::FlashAnyway)
        }
    } else if check {
        Err(FlashError::CrcMismatch { image_crc: image, device_crc: device })
    } else {
        Ok(CrcDecision::Flash)
    }
}

/// Decides from the two CRCs whether to flash.
pub fn check_crc(image: u32, device: u32, check: bool, force: bool) -> (r: Result<
    CrcDecision,
    FlashError,
>)
    ensures
        r == spec_check_crc(image, device, check, force),
{
    if device == image {
        if check {
            return Ok(CrcDecision::Matches);
        }
        if !force {
            Err(FlashError::CrcMatch { crc: device })
        } else {
            Ok(CrcDecision::FlashAnyway)
        }
    } else if check {
        Err(FlashError::CrcMismatch { image_crc: image, device_crc: device })
    } else {
        Ok(CrcDecision::Flash)
    }
}

/// A read of a 32-bit word, with the name of what was read in its error.
pub open spec fn spec_read_word(what: Reading, result: Result<Seq<u8>, u32>) -> Result<
    u32,
    FlashError,
> {
    match spec_word_result(result) {
        Ok(word) => Ok(word),
        Err(error) => Err(FlashError::Read { what, error }),
    }
}

fn read_word(what: Reading, result: &CallResult) -> (r: Result<u32, FlashError>)
    ensures
        r == spec_read_word(what, result_view(*result)),
{
    match word_result(result) {
        Ok(word) => Ok(word),
        Err(error) => Err(FlashError::Read { what, error }),
    }
}

/// What the results of the identifying program say.  The checks come in
/// this order: six results; the device ID; the slot count, read and then
/// held against its bounds; the CRC, read and then held against that of the
/// image.
pub open spec fn spec_preflight(
    hex: RendmpHexView,
    results: Seq<Result<Seq<u8>, u32>>,
    check: bool,
    force: bool,
) -> Result<Preflight, FlashError> {
    if results.len() != 6 {
        Err(FlashError::ResultCount { expected: 6, found: results.len() as usize })
    } else {
        match spec_check_identity(hex, results[Reading::DeviceId.spec_index()]) {
            Err(e) => Err(e),
            Ok(_) => match spec_read_word(Reading::Slots, results[Reading::Slots.spec_index()]) {
                Err(e) => Err(e),
                Ok(slots) => match spec_check_slots(slots) {
                    Err(e) => Err(e),
                    Ok(_) => match spec_read_word(
                        Reading::Crc,
                        results[Reading::Crc.spec_index()],
                    ) {
                        Err(e) => Err(e),
                        Ok(crc) => match spec_check_crc(hex.crc, crc, check, force) {
                            Err(e) => Err(e),
                            Ok(decision) => Ok(Preflight { slots, crc, decision }),
                        },
                    },
                },
            },
        }
    }
}

/// The number of NVM slots that the device said remain: known once the
/// identifying program gave its six results, the device ID is that of the
/// image, and the slot count was read, whatever is found after that.
pub open spec fn spec_slots_read(hex: RendmpHexView, results: Seq<Result<Seq<u8>, u32>>) -> Option<
    u32,
> {
    if results.len() == 6 && spec_check_identity(hex, results[Reading::DeviceId.spec_index()])
        is Ok {
        match spec_word_result(results[Reading::Slots.spec_index()]) {
            Ok(slots) => Some(slots),
            Err(_) => None,
        }
    } else {
        None
    }
}

/// Reads the number of NVM slots that remain from the results of the
/// identifying program, where they give it.
pub fn slots_read(hex: &RendmpHex, results: &Vec<CallResult>) -> (r: Option<u32>)
    ensures
        r == spec_slots_read(hex@, results_view(results@)),
{
    if results.len() != 6 {
        return None;
    }
    let ghost rs = results_view(results@);
    assert(rs[0] == result_view(results@[0]));
    assert(rs[3] == result_view(results@[3]));
    match check_identity(hex, &results[0]) {
        Err(_) => None,
        Ok(_) => match word_result(&results[3]) {
            Ok(slots) => Some(slots),
            Err(_) => None,
        },
    }
}

/// Reads the results of the identifying program, and decides whether the
/// device may be flashed with the image.
pub fn preflight(hex: &RendmpHex, results: &Vec<CallResult>, check: bool, force: bool) -> (r:
    Result<Preflight, FlashError>)
    ensures
        r == spec_preflight(hex@, results_view(results@), check, force),
{
    if results.len() != 6 {
        return Err(FlashError::ResultCount { expected: 6, found: results.len() });
    }
    let ghost rs = results_view(results@);
    assert(rs[0] == result_view(results@[0]));
    assert(rs[3] == result_view(results@[3]));
    assert(rs[5] == result_view(results@[5]));
    match check_identity(hex, &results[0]) {
        Err(e) => {
            return Err(e);
        },
        Ok(_) => {},
    }
    let slots: u32 = match read_word(Reading::Slots, &results[3]) {
        Err(e) => {
            return Err(e);
        },
        Ok(slots) => slots,
    };
    match check_slots(slots) {
        Err(e) => {
            return Err(e);
        },
        Ok(_) => {},
    }
    let crc: u32 = match read_word(Reading::Crc, &results[5]) {
        Err(e) => {
            return Err(e);
        },
        Ok(crc) => crc,
    };
    match check_crc(hex.crc, crc, check, force) {
        Err(e) => Err(e),
        Ok(decision) => Ok(Preflight { slots, crc, decision }),
    }
}

/// The slot count decides alone whether flashing may go on past it: once
/// the device ID is right and the slot count was read, a count outside
/// `10..=28` is refused with the error of its side, and a count within is
/// never refused for its value, whatever the CRCs are and whether a check or
/// force was asked for.
pub proof fn lemma_slot_bounds(
    hex: RendmpHexView,
    results: Seq<Result<Seq<u8>, u32>>,
    check: bool,
    force: bool,
    slots: u32,
)
    requires
        results.len() == 6,
        spec_check_identity(hex, results[0]) is Ok,
        spec_word_result(results[3]) == Ok::<u32, ReadError>(slots),
    ensures
        slots > 28 ==> spec_preflight(hex, results, check, force) == Err::<Preflight, FlashError>(
            FlashError::SlotsTooHigh { slots },
        ),
        slots < 10 ==> spec_preflight(hex, results, check, force) == Err::<Preflight, FlashError>(
            FlashError::SlotsTooLow { slots },
        ),
        10 <= slots <= 28 ==> !(spec_preflight(hex, results, check, force) matches Err(
            FlashError::SlotsTooHigh { .. },
        )) && !(spec_preflight(hex, results, check, force) matches Err(
            FlashError::SlotsTooLow { .. },
        )),
        spec_check_slots(slots) is Ok <==> 10 <= slots <= 28,
{
}

/// The program that reads the CRC of the configuration in OTP.  The second
/// of its two results is the CRC.
pub open spec fn spec_crc_ops(base: Seq<Op>, dma: Dma, device: RendmpDevice) -> Seq<Op> {
    base + indirect_read(dma, le_bytes_u16(device.crc_register()), 4) + seq![Op::Done]
}

/// Builds the program that reads the CRC.
pub fn crc_ops(base: &Vec<Op>, dma: &Dma, device: &RendmpDevice) -> (ops: Vec<Op>)
    ensures
        ops@ == spec_crc_ops(base@, *dma, *device),
{
    let mut ops = base.clone();
    dma.dmaread_ops(&mut ops, device.crc_addr(), 4);
    ops.push(Op::Done);
    ops
}

/// The program that reads the number of NVM slots that remain, and the CRC
/// after it.  The second of its four results is the slot count.
pub open spec fn spec_slots_ops(base: Seq<Op>, dma: Dma, device: RendmpDevice) -> Seq<Op> {
    base + indirect_read(dma, le_bytes_u16(device.slot_register()), 4) + indirect_read(
        dma,
        le_bytes_u16(device.crc_register()),
        4,
    ) + seq![Op::Done]
}

/// Builds the program that reads the number of NVM slots that remain.
pub fn slots_ops(base: &Vec<Op>, dma: &Dma, device: &RendmpDevice) -> (ops: Vec<Op>)
    ensures
        ops@ == spec_slots_ops(base@, *dma, *device),
{
    let mut ops = base.clone();
    dma.dmaread_ops(&mut ops, device.slot_addr(), 4);
    dma.dmaread_ops(&mut ops, device.crc_addr(), 4);
    ops.push(Op::Done);
    ops
}

/// The word that the first indirect read of a program of `expected` results
/// gave: its second result, read as 32 bits.
pub open spec fn spec_read_report(
    what: Reading,
    results: Seq<Result<Seq<u8>, u32>>,
    expected: usize,
) -> Result<u32, FlashError> {
    if results.len() != expected {
        Err(FlashError::ResultCount { expected, found: results.len() as usize })
    } else {
        spec_read_word(what, results[1])
    }
}

/// Reads the results of the program that reads the CRC.
pub fn read_crc(results: &Vec<CallResult>) -> (r: Result<u32, FlashError>)
    ensures
        r == spec_read_report(Reading::Crc, results_view(results@), 2),
{
    if results.len() != 2 {
        return Err(FlashError::ResultCount { expected: 2, found: results.len() });
    }
    assert(results_view(results@)[1] == result_view(results@[1]));
    read_word(Reading::Crc, &results[1])
}

/// Reads the results of the program that reads the number of NVM slots
/// that remain.
pub fn read_slots(results: &Vec<CallResult>) -> (r: Result<u32, FlashError>)
    ensures
        r == spec_read_report(Reading::Slots, results_view(results@), 4),
{
    if results.len() != 4 {
        return Err(FlashError::ResultCount { expected: 4, found: results.len() });
    }
    assert(results_view(results@)[1] == result_view(results@[1]));
    read_word(Reading::Slots, &results[1])
}

/// The most data records that go into one program.
pub const BATCH: usize = 32;

/// The longest payload that a record can carry.
pub const MAX_PAYLOAD: usize = 253;

/// The most data records that an image can have.
pub const MAX_RECORDS: usize = 648;

/// The data records can be written: there are no more of them than an
/// image can have, and none is longer than a record can be.
pub open spec fn writable(data: Seq<Seq<u8>>) -> bool {
    &&& data.len() <= MAX_RECORDS
    &&& forall|i: int| 0 <= i < data.len() ==> (#[trigger] data[i]).len() <= MAX_PAYLOAD
}

/// The data records of a parsed image can be written.
pub proof fn lemma_image_writable(hex: RendmpHexView)
    requires
        hex.wf(),
    ensures
        writable(hex.data),
{
}

/// The index of the first data record that is written: a dry run leaves
/// out the first record, after which the device expects to be programmed.
pub open spec fn write_start(dryrun: bool) -> int {
    if dryrun {
        1
    } else {
        0
    }
}

/// The index after the last data record that is written: a dry run leaves
/// out the last record, which burns the image into OTP.
pub open spec fn write_max(len: int, dryrun: bool) -> int {
    if !dryrun {
        len
    } else if len >= 1 {
        len - 1
    } else {
        0
    }
}

/// The data record at `index` is written: all of them in a normal run, all
/// but the first and the last in a dry run.
pub open spec fn is_written(len: int, dryrun: bool, index: int) -> bool {
    write_start(dryrun) <= index < write_max(len, dryrun)
}

/// A normal run writes every data record; a dry run writes all but the
/// first and the last.
pub proof fn lemma_written_records(len: int, dryrun: bool, index: int)
    requires
        0 <= len,
    ensures
        is_written(len, dryrun, index) <==> if dryrun {
            1 <= index < len - 1
        } else {
            0 <= index < len
        },
{
}

/// The range of data records that is written.
pub fn write_range(len: usize, dryrun: bool) -> (r: (usize, usize))
    ensures
        r.0 == write_start(dryrun),
        r.1 == write_max(len as int, dryrun),
        forall|index: int| #[trigger] is_written(len as int, dryrun, index) <==> r.0 <= index < r.1,
{
    if dryrun {
        (
            1,
            if len >= 1 {
                len - 1
            } else {
                0
            },
        )
    } else {
        (0, len)
    }
}

/// The operations that push the given bytes, in order.
pub open spec fn push_all(bytes: Seq<u8>) -> Seq<Op> {
    Seq::new(bytes.len(), |i: int| Op::Push(bytes[i]))
}

/// The operations that write one payload: its bytes, then its length less
/// one, then the write, then a drop of all that was pushed.
pub open spec fn write_ops(write: u8, payload: Seq<u8>) -> Seq<Op> {
    push_all(payload) + seq![
        Op::Push((payload.len() - 1) as u8),
        Op::Call(write),
        Op::DropN((payload.len() + 1) as u8),
    ]
}

/// The operations that write the data records from `from` up to `to`, in
/// order.
pub open spec fn batch_writes(write: u8, data: Seq<Seq<u8>>, from: int, to: int) -> Seq<Op>
    decreases to - from,
{
    if from >= to {
        Seq::empty()
    } else {
        batch_writes(write, data, from, to - 1) + write_ops(write, data[to - 1])
    }
}

/// The number of payload bytes of the data records from `from` up to `to`.
pub open spec fn payload_bytes(data: Seq<Seq<u8>>, from: int, to: int) -> int
    decreases to - from,
{
    if from >= to {
        0
    } else {
        payload_bytes(data, from, to - 1) + data[to - 1].len()
    }
}

/// Where the batch that starts at `start` ends: after `BATCH` records, or at
/// `max` if that comes first.  A batch that starts at or after `max` is
/// empty.
pub open spec fn batch_end(start: int, max: int) -> int {
    if start >= max {
        start
    } else if start + BATCH < max {
        start + BATCH
    } else {
        max
    }
}

/// The data record at `index` is the first one of the range that has no
/// payload.
pub open spec fn first_empty(data: Seq<Seq<u8>>, from: int, to: int, index: int) -> bool {
    &&& from <= index < to
    &&& data[index].len() == 0
    &&& forall|j: int| from <= j < index ==> (#[trigger] data[j]).len() > 0
}

/// One program of the write phase.
#[derive(Debug, PartialEq, Eq)]
pub struct WriteBatch {
    /// The program: the base, the writes, and the end.
    pub ops: Vec<Op>,
    /// The number of data records that the program writes, which is the
    /// number of its results.
    pub count: usize,
    /// The number of payload bytes that the program writes.
    pub nbytes: usize,
}

/// A program of the write phase as a mathematical value.
pub struct WriteBatchView {
    pub ops: Seq<Op>,
    pub count: usize,
    pub nbytes: usize,
}

impl View for WriteBatch {
    type V = WriteBatchView;

    open spec fn view(&self) -> WriteBatchView {
        WriteBatchView { ops: self.ops@, count: self.count, nbytes: self.nbytes }
    }
}

/// The program that writes the batch of data records that starts at
/// `start`, in a range that ends at `max`: the base, the writes of the
/// records from `start` up to the end of the batch, and the end of the
/// program.  A data record without a payload cannot be written; the first
/// such record of the batch is the error.
pub open spec fn spec_write_batch(
    base: Seq<Op>,
    write: u8,
    data: Seq<Seq<u8>>,
    start: int,
    max: int,
) -> Result<WriteBatchView, FlashError> {
    let end = batch_end(start, max);
    if exists|index: int| first_empty(data, start, end, index) {
        Err(
            FlashError::EmptyPayload {
                index: (choose|index: int| first_empty(data, start, end, index)) as usize,
            },
        )
    } else {
        Ok(
            WriteBatchView {
                ops: base + batch_writes(write, data, start, end) + seq![Op::Done],
                count: (end - start) as usize,
                nbytes: payload_bytes(data, start, end) as usize,
            },
        )
    }
}

/// The result of building a program, with the program as a mathematical
/// value.
pub open spec fn batch_result_view(r: Result<WriteBatch, FlashError>) -> Result<
    WriteBatchView,
    FlashError,
> {
    match r {
        Ok(batch) => Ok(batch@),
        Err(e) => Err(e),
    }
}

/// A range of data records has at most one first record without payload.
pub proof fn lemma_first_empty(data: Seq<Seq<u8>>, from: int, to: int, index: int)
    requires
        first_empty(data, from, to, index),
    ensures
        exists|k: int| first_empty(data, from, to, k),
        (choose|k: int| first_empty(data, from, to, k)) == index,
{
    let c = choose|k: int| first_empty(data, from, to, k);
    if c < index {
        assert(data[c].len() > 0);
    } else if index < c {
        assert(data[index].len() > 0);
    }
}

/// A batch writes at most `BATCH` records, with at most `MAX_PAYLOAD` bytes
/// each.
pub proof fn lemma_payload_bytes_bound(data: Seq<Seq<u8>>, from: int, to: int)
    requires
        0 <= from,
        from >= to || to <= data.len(),
        writable(data),
    ensures
        0 <= payload_bytes(data, from, to),
        from <= to ==> payload_bytes(data, from, to) <= (to - from) * MAX_PAYLOAD,
        from > to ==> payload_bytes(data, from, to) == 0,
    decreases to - from,
{
    if from < to {
        lemma_payload_bytes_bound(data, from, to - 1);
        assert(data[to - 1].len() <= MAX_PAYLOAD);
    }
}

/// Builds the program that writes the batch of data records that starts at
/// `start`, in a range that ends at `max`.
pub fn write_batch(base: &Vec<Op>, write: u8, data: &Vec<Vec<u8>>, start: usize, max: usize) -> (r:
    Result<WriteBatch, FlashError>)
    requires
        writable(views(data@)),
        max <= data@.len(),
    ensures
        batch_result_view(r) == spec_write_batch(
            base@,
            write,
            views(data@),
            start as int,
            max as int,
        ),
{
    let mut ops = base.clone();
    let mut nbytes: usize = 0;
    let end: usize = if start >= max {
        start
    } else if max - start > BATCH {
        start + BATCH
    } else {
        max
    };
    let ghost all = views(data@);
    let mut i: usize = start;
    while i < end
        invariant
            start <= i <= end,
            end == batch_end(start as int, max as int),
            start < end ==> end <= max,
            max <= data@.len(),
            all == views(data@),
            writable(all),
            forall|j: int| start <= j < i ==> (#[trigger] all[j]).len() > 0,
            ops@ == base@ + batch_writes(write, all, start as int, i as int),
            nbytes == payload_bytes(all, start as int, i as int),
            nbytes <= (i - start) * MAX_PAYLOAD,
        decreases end - i,
    {
        let payload = &data[i];
        assert(all[i as int] == payload@);
        if payload.len() == 0 {
            proof {
                assert(first_empty(all, start as int, end as int, i as int));
                lemma_first_empty(all, start as int, end as int, i as int);
            }
            return Err(FlashError::EmptyPayload { index: i });
        }
        let len: u8 = payload.len() as u8;
        let ghost before = ops@;
        let mut k: usize = 0;
        while k < payload.len()
            invariant
                k <= payload@.len(),
                ops@ == before + push_all(payload@.take(k as int)),
            decreases payload@.len() - k,
        {
            ops.push(Op::Push(payload[k]));
            assert(ops@ =~= before + push_all(payload@.take(k + 1)));
            k += 1;
        }
        assert(payload@.take(k as int) =~= payload@);
        ops.push(Op::Push(len - 1));
        ops.push(Op::Call(write));
        ops.push(Op::DropN(len + 1));
        assert(ops@ =~= before + write_ops(write, payload@));
        assert(ops@ =~= base@ + batch_writes(write, all, start as int, i + 1)) by {
            assert(batch_writes(write, all, start as int, i + 1) == batch_writes(
                write,
                all,
                start as int,
                i as int,
            ) + write_ops(write, all[i as int]));
        }
        nbytes += payload.len();
        i += 1;
    }
    proof {
        assert forall|index: int| !first_empty(all, start as int, end as int, index) by {
            if start <= index < end {
                assert(all[index].len() > 0);
            }
        }
    }
    ops.push(Op::Done);
    assert(ops@ =~= base@ + batch_writes(write, all, start as int, end as int) + seq![Op::Done]);
    Ok(WriteBatch { ops, count: end - start, nbytes })
}

/// The result at `index` is the first one that is an error.
pub open spec fn first_failure(results: Seq<Result<Seq<u8>, u32>>, index: int) -> bool {
    &&& 0 <= index < results.len()
    &&& results[index] is Err
    &&& forall|j: int| 0 <= j < index ==> #[trigger] results[j] is Ok
}

/// A program has at most one first result that is an error.
pub proof fn lemma_first_failure(results: Seq<Result<Seq<u8>, u32>>, index: int)
    requires
        first_failure(results, index),
    ensures
        exists|k: int| first_failure(results, k),
        (choose|k: int| first_failure(results, k)) == index,
{
    let c = choose|k: int| first_failure(results, k);
    if c < index {
        assert(results[c] is Ok);
    } else if index < c {
        assert(results[index] is Ok);
    }
}

/// What the results of a program of the write phase say, which wrote
/// `count` data records from `start` on: every write must have its result,
/// and the first write that the device refused is the error, with the index
/// of its data record.
pub open spec fn spec_check_write_results(
    results: Seq<Result<Seq<u8>, u32>>,
    start: int,
    count: int,
) -> Result<(), FlashError> {
    if results.len() != count {
        Err(FlashError::ResultCount { expected: count as usize, found: results.len() as usize })
    } else if exists|index: int| first_failure(results, index) {
        let index = choose|index: int| first_failure(results, index);
        Err(FlashError::WriteFailed { index: (start + index) as usize, code: results[index]->Err_0 })
    } else {
        Ok(())
    }
}

/// Reads the results of a program of the write phase.
pub fn check_write_results(results: &Vec<CallResult>, start: usize, count: usize) -> (r: Result<
    (),
    FlashError,
>)
    requires
        start + count <= usize::MAX,
    ensures
        r == spec_check_write_results(results_view(results@), start as int, count as int),
{
    if results.len() != count {
        return Err(FlashError::ResultCount { expected: count, found: results.len() });
    }
    let ghost rs = results_view(results@);
    let mut ndx: usize = 0;
    while ndx < results.len()
        invariant
            ndx <= results@.len() == count,
            start + count <= usize::MAX,
            rs == results_view(results@),
            forall|j: int| 0 <= j < ndx ==> #[trigger] rs[j] is Ok,
        decreases results@.len() - ndx,
    {
        assert(rs[ndx as int] == result_view(results@[ndx as int]));
        if let Err(err) = &results[ndx] {
            proof {
                assert(first_failure(rs, ndx as int));
                lemma_first_failure(rs, ndx as int);
            }
            return Err(FlashError::WriteFailed { index: start + ndx, code: *err });
        }
        ndx += 1;
    }
    proof {
        assert forall|index: int| !first_failure(rs, index) by {
            if 0 <= index < rs.len() {
                assert(rs[index] is Ok);
            }
        }
    }
    Ok(())
}

/// The longest that success is waited for after the last write, in
/// milliseconds.
pub const VERIFY_DEADLINE_MS: u64 = 2000;

/// The time between two looks at the programmer status, in milliseconds.
pub const VERIFY_INTERVAL_MS: u64 = 100;

/// The program that looks at the outcome: indirect reads of the programmer
/// status word and of the bank status block.  Of its four results the second
/// is the status word and the fourth the bank status block.
pub open spec fn spec_verify_ops(base: Seq<Op>, dma: Dma, device: RendmpDevice) -> Seq<Op> {
    base + indirect_read(dma, le_bytes_u16(device.programmer_status_register()), 2)
        + indirect_read(dma, le_bytes_u16(device.bank_status_register()), 8) + seq![
        Op::Done,
    ]
}

/// Builds the program that looks at the outcome.
pub fn verify_ops(base: &Vec<Op>, dma: &Dma, device: &RendmpDevice) -> (ops: Vec<Op>)
    ensures
        ops@ == spec_verify_ops(base@, *dma, *device),
{
    let mut ops = base.clone();
    dma.dmaread_ops(&mut ops, device.programmer_status_addr(), 2);
    dma.dmaread_ops(&mut ops, device.bank_status_addr(), 8);
    ops.push(Op::Done);
    ops
}

/// Bank `bank` is the first one whose nibble is no status code.
pub open spec fn first_invalid_bank(banks: Seq<Option<RendmpBankStatus>>, bank: int) -> bool {
    &&& 0 <= bank < banks.len()
    &&& banks[bank] is None
    &&& forall|j: int| 0 <= j < bank ==> #[trigger] banks[j] is Some
}

/// The banks that are not unaffected, each with its number, in order.
pub open spec fn affected_banks(banks: Seq<Option<RendmpBankStatus>>) -> Seq<
    (usize, RendmpBankStatus),
>
    decreases banks.len(),
{
    if banks.len() == 0 {
        Seq::empty()
    } else {
        let before = affected_banks(banks.drop_last());
        match banks.last() {
            Some(status) if status != RendmpBankStatus::BankUnaffected => before.push(
                ((banks.len() - 1) as usize, status),
            ),
            _ => before,
        }
    }
}

/// What one look at the outcome found.
#[derive(Debug, PartialEq, Eq)]
pub struct Poll {
    /// The programmer status word.
    pub status: u16,
    /// The banks that are not unaffected, each with its number.
    pub banks: Vec<(usize, RendmpBankStatus)>,
    /// What the status word says.
    pub outcome: Result<(), FlashFailure>,
}

/// A look at the outcome as a mathematical value.
pub struct PollView {
    pub status: u16,
    pub banks: Seq<(usize, RendmpBankStatus)>,
    pub outcome: Result<(), FlashFailure>,
}

impl View for Poll {
    type V = PollView;

    open spec fn view(&self) -> PollView {
        PollView { status: self.status, banks: self.banks@, outcome: self.outcome }
    }
}

/// A look at the outcome that failed.
#[derive(Debug, PartialEq, Eq)]
pub struct PollFailure {
    /// Why the look failed.
    pub error: FlashError,
    /// The banks that were found affected before the look failed, each with
    /// its number: those before the bank without a status, and none where
    /// the statuses could not be read.
    pub banks: Vec<(usize, RendmpBankStatus)>,
}

/// A failed look as a mathematical value.
pub struct PollFailureView {
    pub error: FlashError,
    pub banks: Seq<(usize, RendmpBankStatus)>,
}

impl View for PollFailure {
    type V = PollFailureView;

    open spec fn view(&self) -> PollFailureView {
        PollFailureView { error: self.error, banks: self.banks@ }
    }
}

/// A look that failed before any bank was looked at.
pub open spec fn unread(error: FlashError) -> PollFailureView {
    PollFailureView { error, banks: Seq::empty() }
}

/// The result of a look, with the look as a mathematical value.
pub open spec fn poll_result_view(r: Result<Poll, PollFailure>) -> Result<
    PollView,
    PollFailureView,
> {
    match r {
        Ok(poll) => Ok(poll@),
        Err(e) => Err(e@),
    }
}

/// A status block has at most one first bank without a status.
pub proof fn lemma_first_invalid_bank(banks: Seq<Option<RendmpBankStatus>>, bank: int)
    requires
        first_invalid_bank(banks, bank),
    ensures
        exists|k: int| first_invalid_bank(banks, k),
        (choose|k: int| first_invalid_bank(banks, k)) == bank,
{
    let c = choose|k: int| first_invalid_bank(banks, k);
    if c < bank {
        assert(banks[c] is Some);
    } else if bank < c {
        assert(banks[bank] is Some);
    }
}

/// What the results of the program that looks at the outcome say.  The
/// checks come in this order: four results; the status word, read as two
/// bytes; the bank status block, read as eight bytes; a status for every
/// bank.  The first bank without a status is the error, and the banks that
/// were found affected before it are told with it.
pub open spec fn spec_verify_poll(results: Seq<Result<Seq<u8>, u32>>) -> Result<
    PollView,
    PollFailureView,
> {
    if results.len() != 4 {
        Err(unread(FlashError::ResultCount { expected: 4, found: results.len() as usize }))
    } else {
        match (
            results[Reading::ProgrammerStatus.spec_index()],
            results[Reading::BankStatus.spec_index()],
        ) {
            (Err(code), _) => Err(
                unread(
                    FlashError::Read {
                        what: Reading::ProgrammerStatus,
                        error: ReadError::Failed { code },
                    },
                ),
            ),
            (Ok(word), _) if word.len() != 2 => Err(
                unread(
                    FlashError::Read {
                        what: Reading::ProgrammerStatus,
                        error: ReadError::BadLength { found: word.len() as usize },
                    },
                ),
            ),
            (Ok(_), Err(code)) => Err(
                unread(
                    FlashError::Read {
                        what: Reading::BankStatus,
                        error: ReadError::Failed { code },
                    },
                ),
            ),
            (Ok(_), Ok(block)) if block.len() != 8 => Err(
                unread(
                    FlashError::Read {
                        what: Reading::BankStatus,
                        error: ReadError::BadLength { found: block.len() as usize },
                    },
                ),
            ),
            (Ok(word), Ok(block)) => {
                let banks = decode_banks(block);
                if exists|bank: int| first_invalid_bank(banks, bank) {
                    let bank = choose|bank: int| first_invalid_bank(banks, bank);
                    Err(
                        PollFailureView {
                            error: FlashError::BankInvalid {
                                bank: bank as usize,
                                status: le_u64(block),
                            },
                            banks: affected_banks(banks.take(bank)),
                        },
                    )
                } else {
                    Ok(
                        PollView {
                            status: le_u16(word),
                            banks: affected_banks(banks),
                            outcome: programmer_status(le_u16(word)),
                        },
                    )
                }
            },
        }
    }
}

fn poll_unread(error: FlashError) -> (r: PollFailure)
    ensures
        r@ == unread(error),
{
    PollFailure { error, banks: Vec::new() }
}

/// Reads the results of the program that looks at the outcome.
pub fn verify_poll(device: &RendmpDevice, results: &Vec<CallResult>) -> (r: Result<
    Poll,
    PollFailure,
>)
    ensures
        poll_result_view(r) == spec_verify_poll(results_view(results@)),
{
    if results.len() != 4 {
        return Err(poll_unread(FlashError::ResultCount { expected: 4, found: results.len() }));
    }
    let ghost rs = results_view(results@);
    assert(rs[1] == result_view(results@[1]));
    assert(rs[3] == result_view(results@[3]));
    let status: u16 = match &results[1] {
        Err(err) => {
            return Err(
                poll_unread(
                    FlashError::Read {
                        what: Reading::ProgrammerStatus,
                        error: ReadError::Failed { code: *err },
                    },
                ),
            );
        },
        Ok(word) => {
            if word.len() != 2 {
                return Err(
                    poll_unread(
                        FlashError::Read {
                            what: Reading::ProgrammerStatus,
                            error: ReadError::BadLength { found: word.len() },
                        },
                    ),
                );
            }
            u16_from_le(word.as_slice())
        },
    };
    let banks = match &results[3] {
        Err(err) => {
            return Err(
                poll_unread(
                    FlashError::Read {
                        what: Reading::BankStatus,
                        error: ReadError::Failed { code: *err },
                    },
                ),
            );
        },
        Ok(block) => match device.bank_status(block.as_slice()) {
            Err(_) => {
                return Err(
                    poll_unread(
                        FlashError::Read {
                            what: Reading::BankStatus,
                            error: ReadError::BadLength { found: block.len() },
                        },
                    ),
                );
            },
            Ok(banks) => (banks, u64_from_le(block.as_slice())),
        },
    };
    let (banks, raw) = banks;
    let mut affected: Vec<(usize, RendmpBankStatus)> = Vec::new();
    let mut ndx: usize = 0;
    while ndx < banks.len()
        invariant
            ndx <= banks@.len() == 16,
            rs == results_view(results@),
            rs.len() == 4,
            rs[1] is Ok && rs[1]->Ok_0.len() == 2,
            rs[3] is Ok && rs[3]->Ok_0.len() == 8,
            banks@ == decode_banks(rs[3]->Ok_0),
            raw == le_u64(rs[3]->Ok_0),
            forall|j: int| 0 <= j < ndx ==> #[trigger] banks@[j] is Some,
            affected@ == affected_banks(banks@.take(ndx as int)),
        decreases banks@.len() - ndx,
    {
        proof {
            assert(banks@.take(ndx + 1).drop_last() =~= banks@.take(ndx as int));
        }
        match banks[ndx] {
            None => {
                proof {
                    assert(first_invalid_bank(banks@, ndx as int));
                    lemma_first_invalid_bank(banks@, ndx as int);
                }
                return Err(
                    PollFailure {
                        error: FlashError::BankInvalid { bank: ndx, status: raw },
                        banks: affected,
                    },
                );
            },
            Some(bank) => {
                if bank != RendmpBankStatus::BankUnaffected {
                    affected.push((ndx, bank));
                }
            },
        }
        ndx += 1;
    }
    proof {
        assert(banks@.take(ndx as int) =~= banks@);
        assert forall|bank: int| !first_invalid_bank(banks@, bank) by {
            if 0 <= bank < banks@.len() {
                assert(banks@[bank] is Some);
            }
        }
    }
    let outcome = device.check_programmer_status(status);
    Ok(Poll { status, banks: affected, outcome })
}

/// What to do after a look at the outcome.
#[derive(Copy, Clone, Debug, PartialEq, Eq, Structural)]
pub enum VerifyStep {
    /// The programmer reports success.
    Success,
    /// The programmer reports a failure, and there is time left: wait
    /// `VERIFY_INTERVAL_MS` and look again.
    Retry,
    /// The programmer reports this failure, and the time is over.
    GiveUp { failure: FlashFailure },
}

/// What to do after a look at the outcome, `elapsed_ms` milliseconds after
/// the last write: success ends the wait at once; a failure is looked at
/// again until more than `VERIFY_DEADLINE_MS` have passed, and then it is
/// the last failure that is reported.
pub open spec fn spec_verify_step(outcome: Result<(), FlashFailure>, elapsed_ms: u64) -> VerifyStep {
    match outcome {
        Ok(_) => VerifyStep::Success,
        Err(failure) => if elapsed_ms > VERIFY_DEADLINE_MS {
            VerifyStep::GiveUp { failure }
        } else {
            VerifyStep::Retry
        },
    }
}

/// Decides what to do after a look at the outcome.
pub fn verify_step(outcome: Result<(), FlashFailure>, elapsed_ms: u64) -> (r: VerifyStep)
    ensures
        r == spec_verify_step(outcome, elapsed_ms),
{
    match outcome {
        Ok(_) => VerifyStep::Success,
        Err(failure) => {
            if elapsed_ms > VERIFY_DEADLINE_MS {
                VerifyStep::GiveUp { failure }
            } else {
                VerifyStep::Retry
            }
        },
    }
}

/// How to flash.
#[derive(Copy, Clone, Debug, PartialEq, Eq, Structural)]
pub struct FlashOptions {
    /// Only hold the CRC of the image against that of the device; write
    /// nothing.
    pub check: bool,
    /// Write all but the first and the last data record, so that nothing is
    /// burnt.
    pub dryrun: bool,
    /// Flash even if the device holds the image already.
    pub force: bool,
}

/// Where flashing stands.
#[derive(Copy, Clone, Debug, PartialEq, Eq, Structural)]
pub enum FlashState {
    /// Nothing has been asked of the device.
    Start,
    /// The program that identifies the device is running.
    Identify,
    /// The program that writes the batch of `count` data records from
    /// `start` on is running; it writes `nbytes` payload bytes.
    Write { start: usize, count: usize, nbytes: usize },
    /// The program that looks at the outcome is running.
    Verify,
    /// The programmer reported a failure, and the next look is due after a
    /// wait.
    Wait,
    /// Flashing, or the check, ended well.
    Done,
    /// Flashing was given up.
    Failed,
}

/// What happened since the last step.
#[derive(Debug, PartialEq, Eq)]
pub enum FlashEvent {
    /// Flashing is to begin.
    Begin,
    /// The program that the last step asked for has run, with these results:
    /// one for each of its calls, in order.  `elapsed_ms` is the time in
    /// milliseconds since the step that ended the write phase; only the
    /// looks at the outcome go by it.
    Results { results: Vec<CallResult>, elapsed_ms: u64 },
    /// The wait that the last step asked for is over.
    Woken,
}

/// An event as a mathematical value.
pub enum FlashEventView {
    Begin,
    Results { results: Seq<Result<Seq<u8>, u32>>, elapsed_ms: u64 },
    Woken,
}

impl View for FlashEvent {
    type V = FlashEventView;

    open spec fn view(&self) -> FlashEventView {
        match self {
            FlashEvent::Begin => FlashEventView::Begin,
            FlashEvent::Results { results, elapsed_ms } => FlashEventView::Results {
                results: results_view(results@),
                elapsed_ms: *elapsed_ms,
            },
            FlashEvent::Woken => FlashEventView::Woken,
        }
    }
}

/// What the caller is to do next.
#[derive(Debug, PartialEq, Eq)]
pub enum FlashAction {
    /// Run this program, and come back with its results.
    Run { ops: Vec<Op> },
    /// Wait this many milliseconds, and come back.
    Sleep { ms: u64 },
    /// The end of a check: the device holds the image, whose CRC this is.
    /// Nothing was written.
    Checked { crc: u32 },
    /// The end of flashing: the programmer reports success.  The device
    /// loads the new configuration at its next power cycle.
    Flashed,
    /// The end of flashing, without success.
    Fail { error: FlashError },
    /// The event is none that the state waits for.  Nothing has changed.
    Unexpected,
}

/// An action as a mathematical value.
pub enum FlashActionView {
    Run { ops: Seq<Op> },
    Sleep { ms: u64 },
    Checked { crc: u32 },
    Flashed,
    Fail { error: FlashError },
    Unexpected,
}

impl View for FlashAction {
    type V = FlashActionView;

    open spec fn view(&self) -> FlashActionView {
        match self {
            FlashAction::Run { ops } => FlashActionView::Run { ops: ops@ },
            FlashAction::Sleep { ms } => FlashActionView::Sleep { ms: *ms },
            FlashAction::Checked { crc } => FlashActionView::Checked { crc: *crc },
            FlashAction::Flashed => FlashActionView::Flashed,
            FlashAction::Fail { error } => FlashActionView::Fail { error: *error },
            FlashAction::Unexpected => FlashActionView::Unexpected,
        }
    }
}

/// The state machine that flashes an image: it turns what happened into
/// what to do next.  The caller runs the programs and waits the waits.
#[derive(Debug)]
pub struct Flasher {
    base: Vec<Op>,
    dma: Dma,
    hex: RendmpHex,
    options: FlashOptions,
    state: FlashState,
    written: usize,
    slots: Option<u32>,
    preflight: Option<Preflight>,
    banks: Vec<(usize, RendmpBankStatus)>,
}

/// The state machine as a mathematical value.
pub struct FlasherView {
    /// The operations that every program starts with.
    pub base: Seq<Op>,
    pub dma: Dma,
    /// The image that is flashed.
    pub hex: RendmpHexView,
    pub options: FlashOptions,
    pub state: FlashState,
    /// The number of payload bytes whose writes went through.
    pub written: usize,
    /// The number of NVM slots that the device said remain, once it was
    /// read; it is known even where flashing is refused after it.
    pub slots: Option<u32>,
    /// What the device said before anything was written, once it is known.
    pub preflight: Option<Preflight>,
    /// The banks that the last look at the outcome found affected; where
    /// the look failed at a bank without a status, those before that bank.
    pub banks: Seq<(usize, RendmpBankStatus)>,
}

impl FlasherView {
    /// The index after the last data record that is written.
    pub open spec fn max(self) -> int {
        write_max(self.hex.data.len() as int, self.options.dryrun)
    }

    /// The data records can be written; nothing counts as written before
    /// the device is identified; and while a batch is being written the
    /// state tells its extent and the count of bytes tells what was written
    /// before it.
    pub open spec fn wf(self) -> bool {
        &&& writable(self.hex.data)
        &&& match self.state {
            FlashState::Start => self.written == 0,
            FlashState::Identify => self.written == 0,
            FlashState::Write { start, count, nbytes } => {
                let end = batch_end(start as int, self.max());
                &&& write_start(self.options.dryrun) <= start
                &&& start <= self.max() || start == write_start(self.options.dryrun)
                &&& count == end - start
                &&& nbytes == payload_bytes(self.hex.data, start as int, end)
                &&& self.written == payload_bytes(
                    self.hex.data,
                    write_start(self.options.dryrun),
                    start as int,
                )
            },
            _ => true,
        }
    }

    /// The same machine in another state.
    pub open spec fn with_state(self, state: FlashState) -> FlasherView {
        FlasherView { state, ..self }
    }

    /// Giving up with an error.
    pub open spec fn fail(self, error: FlashError) -> (FlasherView, FlashActionView) {
        (self.with_state(FlashState::Failed), FlashActionView::Fail { error })
    }

    /// Going on to the batch of data records that starts at `start`.
    pub open spec fn begin_batch(self, start: int) -> (FlasherView, FlashActionView) {
        match spec_write_batch(self.base, self.dma.i2c.write, self.hex.data, start, self.max()) {
            Err(error) => self.fail(error),
            Ok(batch) => (
                self.with_state(
                    FlashState::Write {
                        start: start as usize,
                        count: batch.count,
                        nbytes: batch.nbytes,
                    },
                ),
                FlashActionView::Run { ops: batch.ops },
            ),
        }
    }

    /// Going on to a look at the outcome.
    pub open spec fn begin_verify(self) -> (FlasherView, FlashActionView) {
        (
            self.with_state(FlashState::Verify),
            FlashActionView::Run { ops: spec_verify_ops(self.base, self.dma, self.hex.device) },
        )
    }

    /// The step of the machine: the state after the event, and what the
    /// caller is to do.
    ///
    /// - At the start, the device is identified.
    /// - Its answers decide: any fault ends flashing; equal CRCs end a check
    ///   with success; otherwise the first batch of data records is written.
    /// - After each batch, a refused write ends flashing; otherwise the
    ///   next batch is written, and after the last the outcome is looked at.
    /// - After each look, success ends flashing; a failure of the programmer
    ///   is looked at again after a wait, until the deadline has passed.
    pub open spec fn step(self, event: FlashEventView) -> (FlasherView, FlashActionView) {
        match (self.state, event) {
            (FlashState::Start, FlashEventView::Begin) => (
                self.with_state(FlashState::Identify),
                FlashActionView::Run {
                    ops: spec_identify_ops(self.base, self.dma, self.hex.device),
                },
            ),
            (FlashState::Identify, FlashEventView::Results { results, .. }) => match spec_preflight(
                self.hex,
                results,
                self.options.check,
                self.options.force,
            ) {
                Err(error) => (FlasherView {
                    slots: spec_slots_read(self.hex, results),
                    ..self
                }).fail(error),
                Ok(preflight) => {
                    let known = FlasherView {
                        slots: Some(preflight.slots),
                        preflight: Some(preflight),
                        written: 0,
                        ..self
                    };
                    if preflight.decision == CrcDecision::Matches {
                        (
                            known.with_state(FlashState::Done),
                            FlashActionView::Checked { crc: preflight.crc },
                        )
                    } else {
                        known.begin_batch(write_start(self.options.dryrun))
                    }
                },
            },
            (
                FlashState::Write { start, count, nbytes },
                FlashEventView::Results { results, .. },
            ) => match spec_check_write_results(results, start as int, count as int) {
                Err(error) => self.fail(error),
                Ok(_) => {
                    let written = FlasherView {
                        written: (self.written + nbytes) as usize,
                        ..self
                    };
                    if start + BATCH >= self.max() {
                        written.begin_verify()
                    } else {
                        written.begin_batch(start + BATCH)
                    }
                },
            },
            (FlashState::Verify, FlashEventView::Results { results, elapsed_ms }) => match spec_verify_poll(
                results,
            ) {
                Err(failure) => (FlasherView { banks: failure.banks, ..self }).fail(failure.error),
                Ok(poll) => {
                    let seen = FlasherView { banks: poll.banks, ..self };
                    match spec_verify_step(poll.outcome, elapsed_ms) {
                        VerifyStep::Success => (
                            seen.with_state(FlashState::Done),
                            FlashActionView::Flashed,
                        ),
                        VerifyStep::Retry => (
                            seen.with_state(FlashState::Wait),
                            FlashActionView::Sleep { ms: VERIFY_INTERVAL_MS },
                        ),
                        VerifyStep::GiveUp { failure } => seen.fail(FlashError::Failed { failure }),
                    }
                },
            },
            (FlashState::Wait, FlashEventView::Woken) => self.begin_verify(),
            _ => (self, FlashActionView::Unexpected),
        }
    }
}

impl View for Flasher {
    type V = FlasherView;

    closed spec fn view(&self) -> FlasherView {
        FlasherView {
            base: self.base@,
            dma: self.dma,
            hex: self.hex@,
            options: self.options,
            state: self.state,
            written: self.written,
            slots: self.slots,
            preflight: self.preflight,
            banks: self.banks@,
        }
    }
}

impl Flasher {
    /// A machine at its start.  `base` are the operations that every program
    /// starts with.
    pub fn new(base: Vec<Op>, dma: Dma, hex: RendmpHex, options: FlashOptions) -> (r: Flasher)
        requires
            writable(hex@.data),
        ensures
            r@ == (FlasherView {
                base: base@,
                dma,
                hex: hex@,
                options,
                state: FlashState::Start,
                written: 0,
                slots: None,
                preflight: None,
                banks: Seq::empty(),
            }),
            r@.wf(),
    {
        Flasher {
            base,
            dma,
            hex,
            options,
            state: FlashState::Start,
            written: 0,
            slots: None,
            preflight: None,
            banks: Vec::new(),
        }
    }

    /// Where flashing stands.
    pub fn state(&self) -> (r: FlashState)
        ensures
            r == self@.state,
    {
        self.state
    }

    /// The image that is flashed.
    pub fn hex(&self) -> (r: &RendmpHex)
        ensures
            r@ == self@.hex,
    {
        &self.hex
    }

    /// The number of payload bytes whose writes went through.
    pub fn written(&self) -> (r: usize)
        ensures
            r == self@.written,
    {
        self.written
    }

    /// The number of NVM slots that the device said remain, once it was
    /// read.
    pub fn slots(&self) -> (r: Option<u32>)
        ensures
            r == self@.slots,
    {
        self.slots
    }

    /// What the device said before anything was written, once it is known.
    pub fn preflight(&self) -> (r: Option<Preflight>)
        ensures
            r == self@.preflight,
    {
        self.preflight
    }

    /// The banks that the last look at the outcome found affected, each
    /// with its number.
    pub fn banks(&self) -> (r: &Vec<(usize, RendmpBankStatus)>)
        ensures
            r@ == self@.banks,
    {
        &self.banks
    }

    fn begin_batch(&mut self, start: usize) -> (action: FlashAction)
        requires
            writable(old(self)@.hex.data),
            write_start(old(self)@.options.dryrun) <= start,
            start <= old(self)@.max() || start == write_start(old(self)@.options.dryrun),
            old(self)@.written == payload_bytes(
                old(self)@.hex.data,
                write_start(old(self)@.options.dryrun),
                start as int,
            ),
        ensures
            (final(self)@, action@) == old(self)@.begin_batch(start as int),
            final(self)@.wf(),
    {
        let (_, max) = write_range(self.hex.data.len(), self.options.dryrun);
        proof {
            lemma_payload_bytes_bound(
                self@.hex.data,
                start as int,
                batch_end(start as int, max as int),
            );
        }
        match write_batch(&self.base, self.dma.i2c.write, &self.hex.data, start, max) {
            Err(error) => {
                self.state = FlashState::Failed;
                FlashAction::Fail { error }
            },
            Ok(batch) => {
                self.state =
                FlashState::Write { start, count: batch.count, nbytes: batch.nbytes };
                FlashAction::Run { ops: batch.ops }
            },
        }
    }

    fn begin_verify(&mut self) -> (action: FlashAction)
        requires
            writable(old(self)@.hex.data),
        ensures
            (final(self)@, action@) == old(self)@.begin_verify(),
            final(self)@.wf(),
    {
        self.state = FlashState::Verify;
        FlashAction::Run { ops: verify_ops(&self.base, &self.dma, &self.hex.device) }
    }

    /// Takes an event, and says what to do next.
    pub fn step(&mut self, event: FlashEvent) -> (action: FlashAction)
        requires
            old(self)@.wf(),
        ensures
            (final(self)@, action@) == old(self)@.step(event@),
            final(self)@.wf(),
    {
        match (self.state, event) {
            (FlashState::Start, FlashEvent::Begin) => {
                self.state = FlashState::Identify;
                FlashAction::Run { ops: identify_ops(&self.base, &self.dma, &self.hex.device) }
            },
            (FlashState::Identify, FlashEvent::Results { results, elapsed_ms: _ }) => {
                match preflight(&self.hex, &results, self.options.check, self.options.force) {
                    Err(error) => {
                        self.slots = slots_read(&self.hex, &results);
                        self.state = FlashState::Failed;
                        FlashAction::Fail { error }
                    },
                    Ok(preflight) => {
                        self.slots = Some(preflight.slots);
                        self.preflight = Some(preflight);
                        self.written = 0;
                        match preflight.decision {
                            CrcDecision::Matches => {
                                self.state = FlashState::Done;
                                FlashAction::Checked { crc: preflight.crc }
                            },
                            _ => {
                                let (start, _) = write_range(
                                    self.hex.data.len(),
                                    self.options.dryrun,
                                );
                                self.begin_batch(start)
                            },
                        }
                    },
                }
            },
            (
                FlashState::Write { start, count, nbytes },
                FlashEvent::Results { results, elapsed_ms: _ },
            ) => {
                proof {
                    lemma_payload_bytes_bound(
                        self@.hex.data,
                        write_start(self@.options.dryrun),
                        start as int,
                    );
                    lemma_payload_bytes_bound(
                        self@.hex.data,
                        start as int,
                        batch_end(start as int, self@.max()),
                    );
                    lemma_payload_bytes_split(
                        self@.hex.data,
                        write_start(self@.options.dryrun),
                        start as int,
                        batch_end(start as int, self@.max()),
                    );
                }
                match check_write_results(&results, start, count) {
                    Err(error) => {
                        self.state = FlashState::Failed;
                        FlashAction::Fail { error }
                    },
                    Ok(_) => {
                        self.written = self.written + nbytes;
                        let (_, max) = write_range(self.hex.data.len(), self.options.dryrun);
                        let next: usize = start + BATCH;
                        if next >= max {
                            self.begin_verify()
                        } else {
                            self.begin_batch(next)
                        }
                    },
                }
            },
            (FlashState::Verify, FlashEvent::Results { results, elapsed_ms }) => {
                match verify_poll(&self.hex.device, &results) {
                    Err(failure) => {
                        self.banks = failure.banks;
                        self.state = FlashState::Failed;
                        FlashAction::Fail { error: failure.error }
                    },
                    Ok(poll) => {
                        self.banks = poll.banks;
                        match verify_step(poll.outcome, elapsed_ms) {
                            VerifyStep::Success => {
                                self.state = FlashState::Done;
                                FlashAction::Flashed
                            },
                            VerifyStep::Retry => {
                                self.state = FlashState::Wait;
                                FlashAction::Sleep { ms: VERIFY_INTERVAL_MS }
                            },
                            VerifyStep::GiveUp { failure } => {
                                self.state = FlashState::Failed;
                                FlashAction::Fail { error: FlashError::Failed { failure } }
                            },
                        }
                    },
                }
            },
            (FlashState::Wait, FlashEvent::Woken) => { self.begin_verify() },
            _ => FlashAction::Unexpected,
        }
    }
}

/// The payload bytes of a range are those of its two parts.
pub proof fn lemma_payload_bytes_split(data: Seq<Seq<u8>>, from: int, mid: int, to: int)
    requires
        from <= mid <= to,
    ensures
        payload_bytes(data, from, to) == payload_bytes(data, from, mid) + payload_bytes(
            data,
            mid,
            to,
        ),
    decreases to - mid,
{
    if mid < to {
        lemma_payload_bytes_split(data, from, mid, to - 1);
    }
}

/// Every batch lies within the range that is written: a program of the
/// write phase writes no data record that a normal run or a dry run leaves
/// out.
pub proof fn lemma_batch_within_range(machine: FlasherView, index: int)
    requires
        machine.wf(),
        machine.state matches FlashState::Write { start, count, .. } && start <= index < start
            + count,
    ensures
        is_written(machine.hex.data.len() as int, machine.options.dryrun, index),
        0 <= index < machine.hex.data.len(),
{
}

/// The count of bytes that were written never goes down, so that it can
/// drive a progress bar; and it counts payload bytes of the image only.
pub proof fn lemma_written_grows(machine: FlasherView, event: FlashEventView)
    requires
        machine.wf(),
    ensures
        machine.step(event).0.written >= machine.written,
        machine.step(event).0.written != machine.written ==> machine.state is Write
            && machine.step(event).0.written == machine.written + machine.state->nbytes,
{
    if let FlashState::Write { start, count, nbytes } = machine.state {
        let from = write_start(machine.options.dryrun);
        let end = batch_end(start as int, machine.max());
        lemma_payload_bytes_bound(machine.hex.data, from, start as int);
        lemma_payload_bytes_bound(machine.hex.data, start as int, end);
    }
}

/// A check writes nothing: whatever the device answers to the identifying
/// program, the step that reads the answers ends the check, with its
/// verdict or with an error, and asks for no program.  The same holds
/// without a check when the device holds the image already and flashing is
/// not forced: the step ends with `FlashError::CrcMatch`.
pub proof fn lemma_check_writes_nothing(machine: FlasherView, event: FlashEventView)
    requires
        machine.state == FlashState::Identify,
        event is Results,
    ensures
        machine.options.check ==> !(machine.step(event).1 is Run) && (machine.step(event).0.state
            == FlashState::Done || machine.step(event).0.state == FlashState::Failed),
        (spec_preflight(
            machine.hex,
            event->results,
            machine.options.check,
            machine.options.force,
        ) matches Err(FlashError::CrcMatch { .. })) ==> machine.step(event).1 is Fail
            && machine.step(event).0.state == FlashState::Failed,
{
}

/// A block read is one call.
pub proof fn lemma_block_read_calls(read: u8, code: u8)
    ensures
        num_calls(block_read(read, code)) == 1,
{
    let e = Seq::<Op>::empty();
    let r1 = e.push(Op::Push(code));
    let r2 = r1.push(Op::PushNone);
    let r3 = r2.push(Op::Call(read));
    let r4 = r3.push(Op::DropN(2));
    lemma_num_calls_push(e, Op::Push(code));
    lemma_num_calls_push(r1, Op::PushNone);
    lemma_num_calls_push(r2, Op::Call(read));
    lemma_num_calls_push(r3, Op::DropN(2));
    assert(r4 =~= block_read(read, code));
}

/// The identifying program has six calls more than its base, and the
/// program that looks at the outcome has four: as many as the results that
/// `preflight` and `verify_poll` ask for when the base holds no call.
pub proof fn lemma_program_calls(base: Seq<Op>, dma: Dma, device: RendmpDevice)
    ensures
        num_calls(spec_identify_ops(base, dma, device)) == num_calls(base) + 6,
        num_calls(spec_verify_ops(base, dma, device)) == num_calls(base) + 4,
{
    let done = seq![Op::Done];
    assert(num_calls(done) == 0) by {
        lemma_num_calls_push(Seq::empty(), Op::Done);
        assert(Seq::<Op>::empty().push(Op::Done) =~= done);
    }
    let id = block_read(dma.i2c.read, IC_DEVICE_ID);
    let rev = block_read(dma.i2c.read, IC_DEVICE_REV);
    let slots = indirect_read(dma, le_bytes_u16(device.slot_register()), 4);
    let crc = indirect_read(dma, le_bytes_u16(device.crc_register()), 4);
    lemma_block_read_calls(dma.i2c.read, IC_DEVICE_ID);
    lemma_block_read_calls(dma.i2c.read, IC_DEVICE_REV);
    lemma_indirect_calls(dma, le_bytes_u16(device.slot_register()), 4);
    lemma_indirect_calls(dma, le_bytes_u16(device.crc_register()), 4);
    lemma_num_calls_add(base, id);
    lemma_num_calls_add(base + id, rev);
    lemma_num_calls_add(base + id + rev, slots);
    lemma_num_calls_add(base + id + rev + slots, crc);
    lemma_num_calls_add(base + id + rev + slots + crc, done);

    let status = indirect_read(dma, le_bytes_u16(device.programmer_status_register()), 2);
    let banks = indirect_read(dma, le_bytes_u16(device.bank_status_register()), 8);
    lemma_indirect_calls(dma, le_bytes_u16(device.programmer_status_register()), 2);
    lemma_indirect_calls(dma, le_bytes_u16(device.bank_status_register()), 8);
    lemma_num_calls_add(base, status);
    lemma_num_calls_add(base + status, banks);
    lemma_num_calls_add(base + status + banks, done);
}

/// Pushing bytes makes no call, and the write of one payload is one call.
pub proof fn lemma_write_calls(write: u8, payload: Seq<u8>)
    ensures
        num_calls(push_all(payload)) == 0,
        num_calls(write_ops(write, payload)) == 1,
    decreases payload.len(),
{
    if payload.len() > 0 {
        lemma_write_calls(write, payload.drop_last());
        lemma_num_calls_push(push_all(payload.drop_last()), Op::Push(payload.last()));
        assert(push_all(payload.drop_last()).push(Op::Push(payload.last())) =~= push_all(
            payload,
        ));
    }
    let e = Seq::<Op>::empty();
    let w1 = e.push(Op::Push((payload.len() - 1) as u8));
    let w2 = w1.push(Op::Call(write));
    let w3 = w2.push(Op::DropN((payload.len() + 1) as u8));
    lemma_num_calls_push(e, Op::Push((payload.len() - 1) as u8));
    lemma_num_calls_push(w1, Op::Call(write));
    lemma_num_calls_push(w2, Op::DropN((payload.len() + 1) as u8));
    assert(w3 =~= seq![
        Op::Push((payload.len() - 1) as u8),
        Op::Call(write),
        Op::DropN((payload.len() + 1) as u8),
    ]);
    lemma_num_calls_add(push_all(payload), w3);
}

/// A program of the write phase has one call for each data record that it
/// writes: `count` calls more than its base.
pub proof fn lemma_batch_calls(base: Seq<Op>, write: u8, data: Seq<Seq<u8>>, start: int, max: int)
    ensures
        spec_write_batch(base, write, data, start, max) matches Ok(batch) ==> num_calls(batch.ops)
            == num_calls(base) + batch_end(start, max) - start,
{
    let end = batch_end(start, max);
    lemma_writes_calls(write, data, start, end);
    lemma_num_calls_add(base, batch_writes(write, data, start, end));
    lemma_num_calls_push(base + batch_writes(write, data, start, end), Op::Done);
    assert((base + batch_writes(write, data, start, end)).push(Op::Done) =~= base + batch_writes(
        write,
        data,
        start,
        end,
    ) + seq![Op::Done]);
}

/// The writes of a range of data records are as many calls as records.
pub proof fn lemma_writes_calls(write: u8, data: Seq<Seq<u8>>, from: int, to: int)
    ensures
        num_calls(batch_writes(write, data, from, to)) == if from < to {
            to - from
        } else {
            0
        },
    decreases to - from,
{
    if from < to {
        lemma_writes_calls(write, data, from, to - 1);
        lemma_write_calls(write, data[to - 1]);
        lemma_num_calls_add(batch_writes(write, data, from, to - 1), write_ops(write, data[to - 1]));
    }
}

} // verus!
