use rendmp::device::{RendmpDevice, RendmpGenTwo, RendmpGenTwoFive};
use rendmp::flash::{
    check_crc, check_identity, check_slots, check_write_results, crc_ops, identify_ops, preflight,
    read_crc, read_slots, slots_ops, slots_read, verify_ops, verify_poll, verify_step,
    write_batch, write_range, CrcDecision, FlashAction, FlashError, FlashEvent, FlashOptions,
    FlashState, Flasher, Poll, PollFailure, Preflight, Reading, VerifyStep, WriteBatch,
};
use rendmp::hex::RendmpHex;
use rendmp::ops::{CallResult, Dma, I2cFunctions, Op, ReadError};
use rendmp::status::{FlashFailure, RendmpBankStatus};

const READ: u8 = 7;
const WRITE: u8 = 8;
const IMAGE_CRC: u32 = 0x600d_c0de;

fn dma() -> Dma {
    Dma { dmaaddr: 0xc7, dmaseq: 0xc6, i2c: I2cFunctions { read: READ, write: WRITE } }
}

fn base() -> Vec<Op> {
    vec![Op::Push(3), Op::Push(1), Op::PushNone, Op::PushNone, Op::Push(0x5a)]
}

/// An image with `records` data records; record `i` carries `i % 5 + 1` bytes.
fn image(records: usize) -> RendmpHex {
    RendmpHex {
        device: RendmpDevice::RendmpGenTwo(RendmpGenTwo::ISL68224),
        ic_device_id: [0x00, 0x52, 0xd2, 0x49],
        ic_device_rev: [0x07, 0x00, 0x00, 0x02],
        crc: IMAGE_CRC,
        data: (0..records).map(|i| vec![i as u8; i % 5 + 1]).collect(),
    }
}

fn word(value: u32) -> CallResult {
    Ok(value.to_le_bytes().to_vec())
}

/// The results of the identifying program of a device that is the image's model.
fn identity(slots: u32, crc: u32) -> Vec<CallResult> {
    vec![
        Ok(vec![0x00, 0x52, 0xd2, 0x49]),
        Ok(vec![0x07, 0x00, 0x00, 0x02]),
        Ok(vec![]),
        word(slots),
        Ok(vec![]),
        word(crc),
    ]
}

fn poll_results(status: u16, banks: [u8; 8]) -> Vec<CallResult> {
    vec![Ok(vec![]), Ok(status.to_le_bytes().to_vec()), Ok(vec![]), Ok(banks.to_vec())]
}

fn options(check: bool, dryrun: bool, force: bool) -> FlashOptions {
    FlashOptions { check, dryrun, force }
}

fn results(results: Vec<CallResult>) -> FlashEvent {
    FlashEvent::Results { results, elapsed_ms: 0 }
}

/// The indices of the data records that a program writes, told by the first byte of each.
fn written_records(ops: &[Op]) -> Vec<u8> {
    let mut records = vec![];
    let mut first: Option<u8> = None;
    for op in &ops[base().len()..] {
        match op {
            Op::Push(b) => {
                if first.is_none() {
                    first = Some(*b);
                }
            }
            Op::Call(f) => {
                assert_eq!(*f, WRITE);
                records.push(first.unwrap());
            }
            Op::DropN(_) => first = None,
            _ => {}
        }
    }
    records
}

fn count_calls(ops: &[Op]) -> usize {
    ops.iter().filter(|op| matches!(op, Op::Call(_))).count()
}

#[test]
fn the_identifying_program() {
    let device = RendmpDevice::RendmpGenTwo(RendmpGenTwo::ISL68224);
    let mut expected = base();
    expected.extend_from_slice(&[
        Op::Push(0xad),
        Op::PushNone,
        Op::Call(READ),
        Op::DropN(2),
        Op::Push(0xae),
        Op::PushNone,
        Op::Call(READ),
        Op::DropN(2),
        Op::Push(0xc7),
        Op::Push(0xc2),
        Op::Push(0x00),
        Op::Push(2),
        Op::Call(WRITE),
        Op::DropN(4),
        Op::Push(0xc6),
        Op::Push(4),
        Op::Call(READ),
        Op::DropN(2),
        Op::Push(0xc7),
        Op::Push(0x3f),
        Op::Push(0x00),
        Op::Push(2),
        Op::Call(WRITE),
        Op::DropN(4),
        Op::Push(0xc6),
        Op::Push(4),
        Op::Call(READ),
        Op::DropN(2),
        Op::Done,
    ]);
    let ops = identify_ops(&base(), &dma(), &device);
    assert_eq!(ops, expected);
    assert_eq!(count_calls(&ops), 6);
}

#[test]
fn the_identifying_program_of_generation_two_and_a_half() {
    let device = RendmpDevice::RendmpGenTwoFive(RendmpGenTwoFive::RAA228218);
    let ops = identify_ops(&base(), &dma(), &device);
    assert_eq!(ops[base().len() + 9], Op::Push(0xc4));
    assert_eq!(ops[base().len() + 19], Op::Push(0x3c));
}

#[test]
fn the_device_id_must_be_that_of_the_image() {
    let hex = image(3);
    assert_eq!(check_identity(&hex, &Ok(vec![0x00, 0x52, 0xd2, 0x49])), Ok(()));
    assert_eq!(
        check_identity(&hex, &Ok(vec![0x01, 0x52, 0xd2, 0x49])),
        Err(FlashError::DeviceIdMismatch { image_id: 0x49d2_5200, device_id: 0x49d2_5201 })
    );
    assert_eq!(
        check_identity(&hex, &Ok(vec![0x00, 0x52, 0xd2, 0x48])),
        Err(FlashError::DeviceIdMismatch { image_id: 0x49d2_5200, device_id: 0x48d2_5200 })
    );
    assert_eq!(
        check_identity(&hex, &Ok(vec![0x00, 0x02, 0xd2, 0x49])),
        Err(FlashError::DeviceIdMismatch { image_id: 0x49d2_5200, device_id: 0x49d2_0200 })
    );
}

#[test]
fn another_known_model_is_named() {
    let hex = image(3);
    assert_eq!(
        check_identity(&hex, &Ok(vec![0x00, 0x63, 0xd2, 0x49])),
        Err(FlashError::DeviceMismatch {
            image: RendmpDevice::RendmpGenTwo(RendmpGenTwo::ISL68224),
            device: RendmpDevice::RendmpGenTwo(RendmpGenTwo::ISL68220),
        })
    );
    assert_eq!(
        check_identity(&hex, &Ok(vec![0xff, 0x99, 0xff, 0xff])),
        Err(FlashError::DeviceMismatch {
            image: RendmpDevice::RendmpGenTwo(RendmpGenTwo::ISL68224),
            device: RendmpDevice::RendmpGenTwoFive(RendmpGenTwoFive::RAA229618),
        })
    );
}

#[test]
fn a_device_id_that_was_not_read_is_an_error() {
    let hex = image(3);
    assert_eq!(
        check_identity(&hex, &Err(17)),
        Err(FlashError::Read { what: Reading::DeviceId, error: ReadError::Failed { code: 17 } })
    );
    assert_eq!(
        check_identity(&hex, &Ok(vec![0x00, 0x52, 0xd2])),
        Err(FlashError::Read {
            what: Reading::DeviceId,
            error: ReadError::BadLength { found: 3 }
        })
    );
    assert_eq!(
        check_identity(&hex, &Ok(vec![0x00, 0x63, 0xd2, 0x49, 0x00])),
        Err(FlashError::Read {
            what: Reading::DeviceId,
            error: ReadError::BadLength { found: 5 }
        })
    );
}

#[test]
fn slot_counts_from_ten_to_twenty_eight_are_accepted() {
    for slots in 10..=28 {
        assert_eq!(check_slots(slots), Ok(()));
    }
    for slots in 0..10 {
        assert_eq!(check_slots(slots), Err(FlashError::SlotsTooLow { slots }));
    }
    for slots in [29, 30, 255, 256, 0x1c00_0000, u32::MAX] {
        assert_eq!(check_slots(slots), Err(FlashError::SlotsTooHigh { slots }));
    }
}

#[test]
fn the_slot_bounds_hold_whatever_the_crc_and_the_flags() {
    let hex = image(3);
    for slots in [0u32, 1, 9, 10, 11, 27, 28, 29, 100, u32::MAX] {
        for crc in [IMAGE_CRC, IMAGE_CRC + 1] {
            for check in [false, true] {
                for force in [false, true] {
                    let r = preflight(&hex, &identity(slots, crc), check, force);
                    if slots > 28 {
                        assert_eq!(r, Err(FlashError::SlotsTooHigh { slots }));
                    } else if slots < 10 {
                        assert_eq!(r, Err(FlashError::SlotsTooLow { slots }));
                    } else {
                        assert!(!matches!(
                            r,
                            Err(FlashError::SlotsTooHigh { .. })
                                | Err(FlashError::SlotsTooLow { .. })
                        ));
                        if let Ok(p) = r {
                            assert_eq!(p.slots, slots);
                        }
                    }
                }
            }
        }
    }
}

#[test]
fn the_crcs_decide_with_the_flags() {
    assert_eq!(check_crc(5, 5, true, false), Ok(CrcDecision::Matches));
    assert_eq!(check_crc(5, 5, true, true), Ok(CrcDecision::Matches));
    assert_eq!(check_crc(5, 5, false, false), Err(FlashError::CrcMatch { crc: 5 }));
    assert_eq!(check_crc(5, 5, false, true), Ok(CrcDecision::FlashAnyway));
    assert_eq!(
        check_crc(5, 6, true, false),
        Err(FlashError::CrcMismatch { image_crc: 5, device_crc: 6 })
    );
    assert_eq!(
        check_crc(5, 6, true, true),
        Err(FlashError::CrcMismatch { image_crc: 5, device_crc: 6 })
    );
    assert_eq!(check_crc(5, 6, false, false), Ok(CrcDecision::Flash));
    assert_eq!(check_crc(5, 6, false, true), Ok(CrcDecision::Flash));
}

#[test]
fn preflight_reads_slots_and_crc() {
    let hex = image(3);
    assert_eq!(
        preflight(&hex, &identity(28, 0x0102_0304), false, false),
        Ok(Preflight { slots: 28, crc: 0x0102_0304, decision: CrcDecision::Flash })
    );
    assert_eq!(
        preflight(&hex, &identity(10, IMAGE_CRC), false, true),
        Ok(Preflight { slots: 10, crc: IMAGE_CRC, decision: CrcDecision::FlashAnyway })
    );
}

#[test]
fn preflight_checks_in_order() {
    let hex = image(3);
    let mut r = identity(5, IMAGE_CRC);
    r[0] = Ok(vec![0x00, 0x63, 0xd2, 0x49]);
    r[3] = Err(1);
    r[5] = Err(2);
    assert!(matches!(preflight(&hex, &r, false, false), Err(FlashError::DeviceMismatch { .. })));
    r[0] = Ok(vec![0x00, 0x52, 0xd2, 0x49]);
    assert_eq!(
        preflight(&hex, &r, false, false),
        Err(FlashError::Read { what: Reading::Slots, error: ReadError::Failed { code: 1 } })
    );
    r[3] = Ok(vec![5, 0, 0]);
    assert_eq!(
        preflight(&hex, &r, false, false),
        Err(FlashError::Read { what: Reading::Slots, error: ReadError::BadLength { found: 3 } })
    );
    r[3] = word(5);
    assert_eq!(preflight(&hex, &r, false, false), Err(FlashError::SlotsTooLow { slots: 5 }));
    r[3] = word(15);
    assert_eq!(
        preflight(&hex, &r, false, false),
        Err(FlashError::Read { what: Reading::Crc, error: ReadError::Failed { code: 2 } })
    );
    r[5] = Ok(vec![]);
    assert_eq!(
        preflight(&hex, &r, false, false),
        Err(FlashError::Read { what: Reading::Crc, error: ReadError::BadLength { found: 0 } })
    );
    r[5] = word(IMAGE_CRC);
    assert_eq!(preflight(&hex, &r, false, false), Err(FlashError::CrcMatch { crc: IMAGE_CRC }));
}

#[test]
fn preflight_wants_six_results() {
    let hex = image(3);
    let mut r = identity(15, 1);
    r.pop();
    assert_eq!(
        preflight(&hex, &r, false, false),
        Err(FlashError::ResultCount { expected: 6, found: 5 })
    );
    assert_eq!(
        preflight(&hex, &vec![], false, false),
        Err(FlashError::ResultCount { expected: 6, found: 0 })
    );
    let mut r = identity(15, 1);
    r.push(Ok(vec![]));
    assert_eq!(
        preflight(&hex, &r, false, false),
        Err(FlashError::ResultCount { expected: 6, found: 7 })
    );
}

#[test]
fn preflight_does_not_look_at_the_revision_or_the_address_writes() {
    let hex = image(3);
    let mut r = identity(15, 1);
    r[1] = Err(9);
    r[2] = Err(9);
    r[4] = Err(9);
    assert_eq!(
        preflight(&hex, &r, false, false),
        Ok(Preflight { slots: 15, crc: 1, decision: CrcDecision::Flash })
    );
}

#[test]
fn the_range_that_is_written() {
    assert_eq!(write_range(10, false), (0, 10));
    assert_eq!(write_range(10, true), (1, 9));
    assert_eq!(write_range(646, false), (0, 646));
    assert_eq!(write_range(646, true), (1, 645));
    assert_eq!(write_range(2, true), (1, 1));
    assert_eq!(write_range(1, true), (1, 0));
    assert_eq!(write_range(0, true), (1, 0));
    assert_eq!(write_range(0, false), (0, 0));
}

#[test]
fn a_write_pushes_the_payload_and_its_length_less_one() {
    let data = vec![vec![0xe6, 0x01, 0x02], vec![0x11]];
    let batch = write_batch(&base(), WRITE, &data, 0, 2).unwrap();
    let mut expected = base();
    expected.extend_from_slice(&[
        Op::Push(0xe6),
        Op::Push(0x01),
        Op::Push(0x02),
        Op::Push(2),
        Op::Call(WRITE),
        Op::DropN(4),
        Op::Push(0x11),
        Op::Push(0),
        Op::Call(WRITE),
        Op::DropN(2),
        Op::Done,
    ]);
    assert_eq!(batch, WriteBatch { ops: expected, count: 2, nbytes: 4 });
}

#[test]
fn a_batch_holds_thirty_two_records_at_most() {
    let hex = image(70);
    let first = write_batch(&base(), WRITE, &hex.data, 0, 70).unwrap();
    assert_eq!(first.count, 32);
    assert_eq!(written_records(&first.ops), (0..32).collect::<Vec<u8>>());
    assert_eq!(first.nbytes, (0..32).map(|i| i % 5 + 1).sum::<usize>());
    let second = write_batch(&base(), WRITE, &hex.data, 32, 70).unwrap();
    assert_eq!(second.count, 32);
    assert_eq!(written_records(&second.ops), (32..64).collect::<Vec<u8>>());
    let third = write_batch(&base(), WRITE, &hex.data, 64, 70).unwrap();
    assert_eq!(third.count, 6);
    assert_eq!(written_records(&third.ops), (64..70).collect::<Vec<u8>>());
    assert_eq!(third.nbytes, (64..70).map(|i| i % 5 + 1).sum::<usize>());
    assert_eq!(*third.ops.last().unwrap(), Op::Done);
}

#[test]
fn a_batch_of_exactly_thirty_two_records() {
    let hex = image(40);
    let batch = write_batch(&base(), WRITE, &hex.data, 0, 32).unwrap();
    assert_eq!(batch.count, 32);
    let batch = write_batch(&base(), WRITE, &hex.data, 1, 33).unwrap();
    assert_eq!(written_records(&batch.ops), (1..33).collect::<Vec<u8>>());
    let batch = write_batch(&base(), WRITE, &hex.data, 1, 34).unwrap();
    assert_eq!(written_records(&batch.ops), (1..33).collect::<Vec<u8>>());
}

#[test]
fn an_empty_range_gives_a_program_without_writes() {
    let hex = image(1);
    let mut expected = base();
    expected.push(Op::Done);
    assert_eq!(
        write_batch(&base(), WRITE, &hex.data, 1, 0),
        Ok(WriteBatch { ops: expected.clone(), count: 0, nbytes: 0 })
    );
    assert_eq!(
        write_batch(&base(), WRITE, &hex.data, 1, 1),
        Ok(WriteBatch { ops: expected, count: 0, nbytes: 0 })
    );
}

#[test]
fn the_longest_payload_is_written() {
    let data = vec![(0..253).map(|i| i as u8).collect::<Vec<u8>>()];
    let batch = write_batch(&vec![], WRITE, &data, 0, 1).unwrap();
    assert_eq!(batch.ops.len(), 253 + 4);
    assert_eq!(batch.ops[253], Op::Push(252));
    assert_eq!(batch.ops[255], Op::DropN(254));
    assert_eq!(batch.nbytes, 253);
}

#[test]
fn a_record_without_payload_cannot_be_written() {
    let data = vec![vec![1], vec![], vec![2], vec![]];
    assert_eq!(
        write_batch(&base(), WRITE, &data, 0, 4),
        Err(FlashError::EmptyPayload { index: 1 })
    );
    assert_eq!(
        write_batch(&base(), WRITE, &data, 2, 4),
        Err(FlashError::EmptyPayload { index: 3 })
    );
    assert!(write_batch(&base(), WRITE, &data, 2, 3).is_ok());
    assert!(write_batch(&base(), WRITE, &data, 0, 1).is_ok());
}

#[test]
fn the_first_refused_write_is_reported() {
    let ok: CallResult = Ok(vec![]);
    assert_eq!(check_write_results(&vec![ok.clone(), ok.clone()], 32, 2), Ok(()));
    assert_eq!(check_write_results(&vec![], 0, 0), Ok(()));
    assert_eq!(
        check_write_results(&vec![ok.clone(), Err(3), Err(4)], 32, 3),
        Err(FlashError::WriteFailed { index: 33, code: 3 })
    );
    assert_eq!(
        check_write_results(&vec![Err(9)], 0, 1),
        Err(FlashError::WriteFailed { index: 0, code: 9 })
    );
}

#[test]
fn every_write_must_have_its_result() {
    let ok: CallResult = Ok(vec![]);
    assert_eq!(
        check_write_results(&vec![ok.clone()], 0, 2),
        Err(FlashError::ResultCount { expected: 2, found: 1 })
    );
    assert_eq!(
        check_write_results(&vec![Err(1), ok.clone(), ok.clone()], 0, 2),
        Err(FlashError::ResultCount { expected: 2, found: 3 })
    );
}

#[test]
fn the_program_that_looks_at_the_outcome() {
    let device = RendmpDevice::RendmpGenTwo(RendmpGenTwo::ISL68224);
    let mut expected = base();
    expected.extend_from_slice(&[
        Op::Push(0xc7),
        Op::Push(0x07),
        Op::Push(0x07),
        Op::Push(2),
        Op::Call(WRITE),
        Op::DropN(4),
        Op::Push(0xc6),
        Op::Push(2),
        Op::Call(READ),
        Op::DropN(2),
        Op::Push(0xc7),
        Op::Push(0x09),
        Op::Push(0x07),
        Op::Push(2),
        Op::Call(WRITE),
        Op::DropN(4),
        Op::Push(0xc6),
        Op::Push(8),
        Op::Call(READ),
        Op::DropN(2),
        Op::Done,
    ]);
    assert_eq!(verify_ops(&base(), &dma(), &device), expected);
}

#[test]
fn a_look_reads_status_and_banks() {
    let device = RendmpDevice::RendmpGenTwo(RendmpGenTwo::ISL68224);
    assert_eq!(
        verify_poll(&device, &poll_results(0x0001, [0; 8])),
        Ok(Poll { status: 1, banks: vec![], outcome: Ok(()) })
    );
    assert_eq!(
        verify_poll(&device, &poll_results(0x0310, [0x01, 0x40, 0, 0, 0, 0, 0, 0x81])),
        Ok(Poll {
            status: 0x0310,
            banks: vec![
                (0, RendmpBankStatus::BankWritten),
                (3, RendmpBankStatus::CRCMismatchRAM),
                (14, RendmpBankStatus::BankWritten),
                (15, RendmpBankStatus::CRCMismatchOTP),
            ],
            outcome: Err(FlashFailure::RamCrcMismatch),
        })
    );
    assert_eq!(
        verify_poll(&device, &poll_results(0x0100, [0; 8])).unwrap().outcome,
        Err(FlashFailure::ConfigUnavailable)
    );
}

fn unread(error: FlashError) -> Result<Poll, PollFailure> {
    Err(PollFailure { error, banks: vec![] })
}

#[test]
fn a_bank_without_a_status_is_an_error() {
    let device = RendmpDevice::RendmpGenTwo(RendmpGenTwo::ISL68224);
    assert_eq!(
        verify_poll(&device, &poll_results(1, [0x01, 0x30, 0, 0, 0, 0, 0, 0xff])),
        Err(PollFailure {
            error: FlashError::BankInvalid { bank: 3, status: 0xff00_0000_0000_3001 },
            banks: vec![(0, RendmpBankStatus::BankWritten)],
        })
    );
    assert_eq!(
        verify_poll(&device, &poll_results(1, [0x05, 0, 0, 0, 0, 0, 0, 0])),
        unread(FlashError::BankInvalid { bank: 0, status: 0x05 })
    );
    assert_eq!(
        verify_poll(&device, &poll_results(1, [0, 0, 0, 0, 0, 0, 0, 0xf0])),
        unread(FlashError::BankInvalid { bank: 15, status: 0xf000_0000_0000_0000 })
    );
}

#[test]
fn a_reserved_nibble_is_a_bank_without_a_status() {
    let device = RendmpDevice::RendmpGenTwo(RendmpGenTwo::ISL68224);
    assert_eq!(
        verify_poll(&device, &poll_results(1, [0x02, 0, 0, 0, 0, 0, 0, 0])),
        unread(FlashError::BankInvalid { bank: 0, status: 0x02 })
    );
    assert_eq!(
        verify_poll(&device, &poll_results(1, [0x84, 0x01, 0x20, 0x11, 0, 0, 0, 0x22])),
        Err(PollFailure {
            error: FlashError::BankInvalid { bank: 5, status: 0x2200_0000_1120_0184 },
            banks: vec![
                (0, RendmpBankStatus::CRCMismatchRAM),
                (1, RendmpBankStatus::CRCMismatchOTP),
                (2, RendmpBankStatus::BankWritten),
            ],
        })
    );
}

#[test]
fn a_look_checks_in_order() {
    let device = RendmpDevice::RendmpGenTwo(RendmpGenTwo::ISL68224);
    let mut r = poll_results(1, [0xff; 8]);
    r[1] = Err(4);
    r[3] = Err(5);
    assert_eq!(
        verify_poll(&device, &r),
        unread(FlashError::Read {
            what: Reading::ProgrammerStatus,
            error: ReadError::Failed { code: 4 }
        })
    );
    r[1] = Ok(vec![1]);
    assert_eq!(
        verify_poll(&device, &r),
        unread(FlashError::Read {
            what: Reading::ProgrammerStatus,
            error: ReadError::BadLength { found: 1 }
        })
    );
    r[1] = Ok(vec![1, 0]);
    assert_eq!(
        verify_poll(&device, &r),
        unread(FlashError::Read {
            what: Reading::BankStatus,
            error: ReadError::Failed { code: 5 }
        })
    );
    r[3] = Ok(vec![0; 7]);
    assert_eq!(
        verify_poll(&device, &r),
        unread(FlashError::Read {
            what: Reading::BankStatus,
            error: ReadError::BadLength { found: 7 }
        })
    );
    r.pop();
    assert_eq!(
        verify_poll(&device, &r),
        unread(FlashError::ResultCount { expected: 4, found: 3 })
    );
}

#[test]
fn a_failure_is_looked_at_again_until_two_seconds_have_passed() {
    let failure = FlashFailure::OtpCrcMismatch;
    assert_eq!(verify_step(Ok(()), 0), VerifyStep::Success);
    assert_eq!(verify_step(Ok(()), 5000), VerifyStep::Success);
    assert_eq!(verify_step(Err(failure), 0), VerifyStep::Retry);
    assert_eq!(verify_step(Err(failure), 1999), VerifyStep::Retry);
    assert_eq!(verify_step(Err(failure), 2000), VerifyStep::Retry);
    assert_eq!(verify_step(Err(failure), 2001), VerifyStep::GiveUp { failure });
    assert_eq!(verify_step(Err(failure), u64::MAX), VerifyStep::GiveUp { failure });
}

#[test]
fn equal_crcs_without_force_abort_before_any_write() {
    let mut flasher = Flasher::new(base(), dma(), image(10), options(false, false, false));
    let first = flasher.step(FlashEvent::Begin);
    assert!(matches!(first, FlashAction::Run { .. }));
    assert_eq!(flasher.state(), FlashState::Identify);
    let second = flasher.step(results(identity(20, IMAGE_CRC)));
    assert_eq!(second, FlashAction::Fail { error: FlashError::CrcMatch { crc: IMAGE_CRC } });
    assert_eq!(flasher.state(), FlashState::Failed);
    assert_eq!(flasher.written(), 0);
    assert_eq!(flasher.step(results(vec![])), FlashAction::Unexpected);
    assert_eq!(flasher.step(FlashEvent::Woken), FlashAction::Unexpected);
    assert_eq!(flasher.step(FlashEvent::Begin), FlashAction::Unexpected);
}

#[test]
fn different_crcs_fail_a_check_without_writes_or_looks() {
    let mut flasher = Flasher::new(base(), dma(), image(10), options(true, false, false));
    let first = flasher.step(FlashEvent::Begin);
    assert_eq!(
        first,
        FlashAction::Run {
            ops: identify_ops(&base(), &dma(), &RendmpDevice::RendmpGenTwo(RendmpGenTwo::ISL68224))
        }
    );
    let second = flasher.step(results(identity(20, 0x0bad_0bad)));
    assert_eq!(
        second,
        FlashAction::Fail {
            error: FlashError::CrcMismatch { image_crc: IMAGE_CRC, device_crc: 0x0bad_0bad }
        }
    );
    assert_eq!(flasher.state(), FlashState::Failed);
    assert_eq!(flasher.written(), 0);
    assert_eq!(flasher.step(results(vec![])), FlashAction::Unexpected);
}

#[test]
fn equal_crcs_end_a_check_with_success() {
    for force in [false, true] {
        for dryrun in [false, true] {
            let mut flasher = Flasher::new(base(), dma(), image(10), options(true, dryrun, force));
            flasher.step(FlashEvent::Begin);
            let action = flasher.step(results(identity(20, IMAGE_CRC)));
            assert_eq!(action, FlashAction::Checked { crc: IMAGE_CRC });
            assert_eq!(flasher.state(), FlashState::Done);
            assert_eq!(
                flasher.preflight(),
                Some(Preflight { slots: 20, crc: IMAGE_CRC, decision: CrcDecision::Matches })
            );
        }
    }
}

#[test]
fn a_dry_run_of_ten_records_writes_records_one_to_eight() {
    let mut flasher = Flasher::new(base(), dma(), image(10), options(false, true, false));
    flasher.step(FlashEvent::Begin);
    let action = flasher.step(results(identity(20, 1)));
    let ops = match action {
        FlashAction::Run { ops } => ops,
        other => panic!("{:?}", other),
    };
    assert_eq!(written_records(&ops), vec![1, 2, 3, 4, 5, 6, 7, 8]);
    assert_eq!(count_calls(&ops), 8);
    assert_eq!(flasher.state(), FlashState::Write { start: 1, count: 8, nbytes: 2 + 3 + 4 + 5 + 1 + 2 + 3 + 4 });
    let next = flasher.step(results(vec![Ok(vec![]); 8]));
    assert_eq!(
        next,
        FlashAction::Run {
            ops: verify_ops(&base(), &dma(), &RendmpDevice::RendmpGenTwo(RendmpGenTwo::ISL68224))
        }
    );
    assert_eq!(flasher.state(), FlashState::Verify);
    assert_eq!(flasher.written(), 24);
}

#[test]
fn a_normal_run_of_ten_records_writes_all_of_them() {
    let mut flasher = Flasher::new(base(), dma(), image(10), options(false, false, false));
    flasher.step(FlashEvent::Begin);
    let ops = match flasher.step(results(identity(20, 1))) {
        FlashAction::Run { ops } => ops,
        other => panic!("{:?}", other),
    };
    assert_eq!(written_records(&ops), (0..10).collect::<Vec<u8>>());
}

#[test]
fn a_persistent_ram_crc_mismatch_is_the_final_error() {
    let mut flasher = Flasher::new(base(), dma(), image(2), options(false, false, true));
    flasher.step(FlashEvent::Begin);
    flasher.step(results(identity(20, IMAGE_CRC)));
    let mut action = flasher.step(results(vec![Ok(vec![]); 2]));
    let mut looks = 0;
    let mut elapsed_ms = 0;
    loop {
        match action {
            FlashAction::Run { ops } => {
                assert_eq!(
                    ops,
                    verify_ops(
                        &base(),
                        &dma(),
                        &RendmpDevice::RendmpGenTwo(RendmpGenTwo::ISL68224)
                    )
                );
                looks += 1;
                action = flasher.step(FlashEvent::Results {
                    results: poll_results(0x0010, [0x04, 0, 0, 0, 0, 0, 0, 0]),
                    elapsed_ms,
                });
            }
            FlashAction::Sleep { ms } => {
                assert_eq!(ms, 100);
                assert_eq!(flasher.state(), FlashState::Wait);
                assert_eq!(flasher.banks(), &vec![(0, RendmpBankStatus::CRCMismatchRAM)]);
                elapsed_ms += ms + 1;
                action = flasher.step(FlashEvent::Woken);
            }
            other => {
                assert_eq!(
                    other,
                    FlashAction::Fail {
                        error: FlashError::Failed { failure: FlashFailure::RamCrcMismatch }
                    }
                );
                break;
            }
        }
    }
    assert_eq!(flasher.state(), FlashState::Failed);
    assert_eq!(looks, 21);
    assert_eq!(
        FlashFailure::RamCrcMismatch.description(),
        "flashing failed: CRC mismatch within RAM data"
    );
}

#[test]
fn flashing_seventy_records_to_success() {
    let hex = image(70);
    let total: usize = hex.data.iter().map(|p| p.len()).sum();
    let mut flasher = Flasher::new(base(), dma(), hex, options(false, false, false));
    assert_eq!(flasher.state(), FlashState::Start);
    let mut action = flasher.step(FlashEvent::Begin);
    let mut programs = vec![];
    let mut sleeps = 0;
    let mut polls = 0;
    let end = loop {
        match action {
            FlashAction::Run { ops } => {
                let calls = count_calls(&ops);
                let state = flasher.state();
                programs.push((state, calls));
                let results = match state {
                    FlashState::Identify => identity(28, 0),
                    FlashState::Write { count, .. } => {
                        assert_eq!(count, calls);
                        vec![Ok(vec![]); count]
                    }
                    FlashState::Verify => {
                        polls += 1;
                        poll_results(if polls < 3 { 0x0000 } else { 0x0001 }, [0x11; 8])
                    }
                    other => panic!("{:?}", other),
                };
                action = flasher.step(FlashEvent::Results { results, elapsed_ms: 150 * polls });
            }
            FlashAction::Sleep { .. } => {
                sleeps += 1;
                action = flasher.step(FlashEvent::Woken);
            }
            other => break other,
        }
    };
    assert_eq!(end, FlashAction::Flashed);
    assert_eq!(flasher.state(), FlashState::Done);
    assert_eq!(flasher.written(), total);
    assert_eq!(sleeps, 2);
    assert_eq!(flasher.banks().len(), 16);
    assert_eq!(flasher.hex().data.len(), 70);
    let shape: Vec<usize> = programs.iter().map(|p| p.1).collect();
    assert_eq!(shape, vec![6, 32, 32, 6, 4, 4, 4]);
    assert!(matches!(programs[1].0, FlashState::Write { start: 0, count: 32, .. }));
    assert!(matches!(programs[2].0, FlashState::Write { start: 32, count: 32, .. }));
    assert!(matches!(programs[3].0, FlashState::Write { start: 64, count: 6, .. }));
}

#[test]
fn a_refused_write_ends_flashing() {
    let mut flasher = Flasher::new(base(), dma(), image(40), options(false, false, false));
    flasher.step(FlashEvent::Begin);
    flasher.step(results(identity(20, 1)));
    flasher.step(results(vec![Ok(vec![]); 32]));
    assert_eq!(flasher.state(), FlashState::Write { start: 32, count: 8, nbytes: 3 + 4 + 5 + 1 + 2 + 3 + 4 + 5 });
    let mut r: Vec<CallResult> = vec![Ok(vec![]); 8];
    r[5] = Err(0x21);
    assert_eq!(
        flasher.step(results(r)),
        FlashAction::Fail { error: FlashError::WriteFailed { index: 37, code: 0x21 } }
    );
    assert_eq!(flasher.state(), FlashState::Failed);
    assert_eq!(flasher.written(), (0..32).map(|i| i % 5 + 1).sum::<usize>());
}

#[test]
fn an_unknown_failure_is_retried_and_a_success_ends_at_once() {
    let mut flasher = Flasher::new(base(), dma(), image(1), options(false, false, false));
    flasher.step(FlashEvent::Begin);
    flasher.step(results(identity(20, 1)));
    flasher.step(results(vec![Ok(vec![])]));
    assert_eq!(flasher.state(), FlashState::Verify);
    assert_eq!(
        flasher.step(FlashEvent::Results { results: poll_results(0, [0; 8]), elapsed_ms: 2000 }),
        FlashAction::Sleep { ms: 100 }
    );
    assert_eq!(flasher.step(results(vec![])), FlashAction::Unexpected);
    assert!(matches!(flasher.step(FlashEvent::Woken), FlashAction::Run { .. }));
    assert_eq!(
        flasher.step(FlashEvent::Results { results: poll_results(1, [0; 8]), elapsed_ms: 9000 }),
        FlashAction::Flashed
    );
}

#[test]
fn a_dry_run_of_a_single_record_writes_nothing() {
    let mut flasher = Flasher::new(base(), dma(), image(1), options(false, true, false));
    flasher.step(FlashEvent::Begin);
    let ops = match flasher.step(results(identity(20, 1))) {
        FlashAction::Run { ops } => ops,
        other => panic!("{:?}", other),
    };
    assert_eq!(count_calls(&ops), 0);
    assert!(matches!(flasher.step(results(vec![])), FlashAction::Run { .. }));
    assert_eq!(flasher.state(), FlashState::Verify);
}

#[test]
fn a_record_without_payload_ends_flashing_at_its_batch() {
    let mut hex = image(40);
    hex.data[35] = vec![];
    let mut flasher = Flasher::new(base(), dma(), hex, options(false, false, false));
    flasher.step(FlashEvent::Begin);
    assert!(matches!(flasher.step(results(identity(20, 1))), FlashAction::Run { .. }));
    assert_eq!(
        flasher.step(results(vec![Ok(vec![]); 32])),
        FlashAction::Fail { error: FlashError::EmptyPayload { index: 35 } }
    );
    assert_eq!(flasher.state(), FlashState::Failed);

    let mut hex = image(40);
    hex.data[0] = vec![];
    let mut flasher = Flasher::new(base(), dma(), hex, options(false, false, false));
    flasher.step(FlashEvent::Begin);
    assert_eq!(
        flasher.step(results(identity(20, 1))),
        FlashAction::Fail { error: FlashError::EmptyPayload { index: 0 } }
    );

    // A dry run leaves the first record out, and with it the fault.
    let mut hex = image(40);
    hex.data[0] = vec![];
    let mut flasher = Flasher::new(base(), dma(), hex, options(false, true, false));
    flasher.step(FlashEvent::Begin);
    assert!(matches!(flasher.step(results(identity(20, 1))), FlashAction::Run { .. }));
}

#[test]
fn a_bank_without_a_status_ends_flashing() {
    let mut flasher = Flasher::new(base(), dma(), image(1), options(false, false, false));
    flasher.step(FlashEvent::Begin);
    flasher.step(results(identity(20, 1)));
    flasher.step(results(vec![Ok(vec![])]));
    assert_eq!(
        flasher.step(results(poll_results(1, [0, 0, 0x0c, 0, 0, 0, 0, 0]))),
        FlashAction::Fail { error: FlashError::BankInvalid { bank: 4, status: 0x0c_0000 } }
    );
    assert_eq!(flasher.state(), FlashState::Failed);
}

#[test]
fn a_look_that_cannot_be_read_ends_flashing() {
    let mut flasher = Flasher::new(base(), dma(), image(1), options(false, false, false));
    flasher.step(FlashEvent::Begin);
    flasher.step(results(identity(20, 1)));
    flasher.step(results(vec![Ok(vec![])]));
    let mut look = poll_results(1, [0; 8]);
    look[1] = Err(0x40);
    assert_eq!(
        flasher.step(results(look)),
        FlashAction::Fail {
            error: FlashError::Read {
                what: Reading::ProgrammerStatus,
                error: ReadError::Failed { code: 0x40 }
            }
        }
    );
}

#[test]
fn every_program_has_as_many_calls_as_results_are_asked_of_it() {
    let device = RendmpDevice::RendmpGenTwo(RendmpGenTwo::ISL68224);
    assert_eq!(count_calls(&base()), 0);
    assert_eq!(count_calls(&identify_ops(&base(), &dma(), &device)), 6);
    assert_eq!(count_calls(&verify_ops(&base(), &dma(), &device)), 4);
    let hex = image(70);
    for (start, max) in [(0usize, 70usize), (32, 70), (64, 70), (1, 69), (65, 69), (1, 0)] {
        let batch = write_batch(&base(), WRITE, &hex.data, start, max).unwrap();
        assert_eq!(count_calls(&batch.ops), batch.count);
    }
}

#[test]
fn reading_the_crc_alone() {
    let device = RendmpDevice::RendmpGenTwoFive(RendmpGenTwoFive::RAA228218);
    let mut expected = base();
    expected.extend_from_slice(&[
        Op::Push(0xc7),
        Op::Push(0x3c),
        Op::Push(0x00),
        Op::Push(2),
        Op::Call(WRITE),
        Op::DropN(4),
        Op::Push(0xc6),
        Op::Push(4),
        Op::Call(READ),
        Op::DropN(2),
        Op::Done,
    ]);
    assert_eq!(crc_ops(&base(), &dma(), &device), expected);
    assert_eq!(read_crc(&vec![Ok(vec![]), word(0xfeed_f00d)]), Ok(0xfeed_f00d));
    assert_eq!(read_crc(&vec![Err(1), word(7)]), Ok(7));
    assert_eq!(
        read_crc(&vec![Ok(vec![]), Err(8)]),
        Err(FlashError::Read { what: Reading::Crc, error: ReadError::Failed { code: 8 } })
    );
    assert_eq!(
        read_crc(&vec![Ok(vec![]), Ok(vec![1, 2])]),
        Err(FlashError::Read { what: Reading::Crc, error: ReadError::BadLength { found: 2 } })
    );
    assert_eq!(
        read_crc(&vec![word(7)]),
        Err(FlashError::ResultCount { expected: 2, found: 1 })
    );
}

#[test]
fn reading_the_slots_alone() {
    let device = RendmpDevice::RendmpGenTwo(RendmpGenTwo::ISL68224);
    let ops = slots_ops(&base(), &dma(), &device);
    assert_eq!(ops.len(), base().len() + 21);
    assert_eq!(ops[base().len() + 1], Op::Push(0xc2));
    assert_eq!(ops[base().len() + 11], Op::Push(0x3f));
    assert_eq!(count_calls(&ops), 4);
    assert_eq!(*ops.last().unwrap(), Op::Done);
    assert_eq!(read_slots(&vec![Ok(vec![]), word(26), Ok(vec![]), word(0)]), Ok(26));
    assert_eq!(read_slots(&vec![Ok(vec![]), word(5), Err(1), Err(2)]), Ok(5));
    assert_eq!(
        read_slots(&vec![Ok(vec![]), Err(3), Ok(vec![]), word(0)]),
        Err(FlashError::Read { what: Reading::Slots, error: ReadError::Failed { code: 3 } })
    );
    assert_eq!(
        read_slots(&vec![Ok(vec![]), word(26)]),
        Err(FlashError::ResultCount { expected: 4, found: 2 })
    );
}

#[test]
fn the_banks_before_a_bank_without_a_status_are_kept() {
    let mut flasher = Flasher::new(base(), dma(), image(1), options(false, false, false));
    flasher.step(FlashEvent::Begin);
    flasher.step(results(identity(20, 1)));
    flasher.step(results(vec![Ok(vec![])]));
    assert_eq!(
        flasher.step(results(poll_results(1, [0x41, 0x08, 0x02, 0x11, 0, 0, 0, 0]))),
        FlashAction::Fail {
            error: FlashError::BankInvalid { bank: 4, status: 0x1102_0841 }
        }
    );
    assert_eq!(flasher.state(), FlashState::Failed);
    assert_eq!(
        flasher.banks(),
        &vec![
            (0, RendmpBankStatus::BankWritten),
            (1, RendmpBankStatus::CRCMismatchRAM),
            (2, RendmpBankStatus::CRCMismatchOTP),
        ]
    );
}

#[test]
fn a_look_that_cannot_be_read_tells_no_banks() {
    let mut flasher = Flasher::new(base(), dma(), image(1), options(false, false, false));
    flasher.step(FlashEvent::Begin);
    flasher.step(results(identity(20, 1)));
    flasher.step(results(vec![Ok(vec![])]));
    assert_eq!(
        flasher.step(FlashEvent::Results { results: poll_results(0, [0x01; 8]), elapsed_ms: 0 }),
        FlashAction::Sleep { ms: 100 }
    );
    assert_eq!(flasher.banks().len(), 8);
    flasher.step(FlashEvent::Woken);
    let mut look = poll_results(0, [0x01; 8]);
    look[3] = Err(2);
    assert!(matches!(flasher.step(results(look)), FlashAction::Fail { .. }));
    assert_eq!(flasher.banks(), &vec![]);
}

#[test]
fn the_slot_count_is_known_even_where_flashing_is_refused() {
    for (slots, crc) in [(5u32, 1u32), (40, 1), (20, IMAGE_CRC), (20, 1)] {
        let mut flasher = Flasher::new(base(), dma(), image(3), options(false, false, false));
        assert_eq!(flasher.slots(), None);
        flasher.step(FlashEvent::Begin);
        assert_eq!(flasher.slots(), None);
        flasher.step(results(identity(slots, crc)));
        assert_eq!(flasher.slots(), Some(slots));
    }
    let mut flasher = Flasher::new(base(), dma(), image(3), options(false, false, false));
    flasher.step(FlashEvent::Begin);
    let mut r = identity(20, 1);
    r[5] = Err(3);
    flasher.step(results(r));
    assert_eq!(flasher.state(), FlashState::Failed);
    assert_eq!(flasher.slots(), Some(20));
    assert_eq!(flasher.preflight(), None);
}

#[test]
fn the_slot_count_is_not_known_before_the_device_is_the_right_one() {
    let hex = image(3);
    assert_eq!(slots_read(&hex, &identity(20, 1)), Some(20));
    assert_eq!(slots_read(&hex, &identity(0, 1)), Some(0));
    let mut r = identity(20, 1);
    r[0] = Ok(vec![0x00, 0x63, 0xd2, 0x49]);
    assert_eq!(slots_read(&hex, &r), None);
    let mut r = identity(20, 1);
    r[3] = Err(1);
    assert_eq!(slots_read(&hex, &r), None);
    r[3] = Ok(vec![20, 0, 0]);
    assert_eq!(slots_read(&hex, &r), None);
    assert_eq!(slots_read(&hex, &identity(20, 1)[..5].to_vec()), None);

    let mut flasher = Flasher::new(base(), dma(), image(3), options(false, false, false));
    flasher.step(FlashEvent::Begin);
    let mut r = identity(20, 1);
    r[0] = Err(7);
    flasher.step(results(r));
    assert_eq!(flasher.slots(), None);
}

#[test]
fn the_place_of_each_reading_among_the_results() {
    assert_eq!(Reading::DeviceId.index(), 0);
    assert_eq!(Reading::Slots.index(), 3);
    assert_eq!(Reading::Crc.index(), 5);
    assert_eq!(Reading::ProgrammerStatus.index(), 1);
    assert_eq!(Reading::BankStatus.index(), 3);
    let hex = image(3);
    for what in [Reading::Slots, Reading::Crc] {
        let mut r = identity(20, 1);
        r[what.index()] = Err(9);
        assert_eq!(
            preflight(&hex, &r, false, false),
            Err(FlashError::Read { what, error: ReadError::Failed { code: 9 } })
        );
    }
    let device = RendmpDevice::RendmpGenTwo(RendmpGenTwo::ISL68224);
    for what in [Reading::ProgrammerStatus, Reading::BankStatus] {
        let mut r = poll_results(1, [0; 8]);
        r[what.index()] = Err(9);
        assert_eq!(
            verify_poll(&device, &r),
            unread(FlashError::Read { what, error: ReadError::Failed { code: 9 } })
        );
    }
}
