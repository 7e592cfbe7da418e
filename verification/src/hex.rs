//! The vendor's HEX image: an ASCII file of records, one per line.
//!
//! A record line is a run of two-digit hexadecimal bytes,
//! `[kind][length][address << 1][payload ...][checksum]`.  Empty lines and
//! lines that start with `#` carry nothing.

use vstd::prelude::*;
use crate::bytes::le_u32;
use crate::device::RendmpDevice;

verus! {

/// The kind of a record, which its first byte gives.
#[derive(Copy, Clone, Debug, PartialEq, Eq, Structural)]
pub enum RendmpHexRecordKind {
    Data,
    Header,
}

impl RendmpHexRecordKind {
    /// The byte that stands for this kind.
    pub open spec fn spec_code(self) -> u8 {
        match self {
            RendmpHexRecordKind::Data => 0,
            RendmpHexRecordKind::Header => 0x49,
        }
    }

    /// The byte that stands for this kind.
    #[verifier::when_used_as_spec(spec_code)]
    pub fn code(self) -> (r: u8)
        ensures
            r == self.spec_code(),
    {
        match self {
            RendmpHexRecordKind::Data => 0,
            RendmpHexRecordKind::Header => 0x49,
        }
    }

    /// The kind that a byte stands for, if any.
    pub open spec fn spec_from_u8(code: u8) -> Option<RendmpHexRecordKind> {
        if code == 0 {
            Some(RendmpHexRecordKind::Data)
        } else if code == 0x49 {
            Some(RendmpHexRecordKind::Header)
        } else {
            None
        }
    }

    /// The kind that a byte stands for, if any.
    pub fn from_u8(code: u8) -> (r: Option<RendmpHexRecordKind>)
        ensures
            r == Self::spec_from_u8(code),
    {
        match code {
            0 => Some(RendmpHexRecordKind::Data),
            0x49 => Some(RendmpHexRecordKind::Header),
            _ => None,
        }
    }
}

/// Why a HEX image is rejected.  Lines and columns count from 1.
#[derive(Copy, Clone, Debug, PartialEq, Eq, Structural)]
pub enum ParseError {
    /// A line ends in the middle of a byte.
    ShortHex { line: usize, col: usize },
    /// The two characters `hi` and `lo` at `col` are not two hexadecimal
    /// digits.
    BadHex { line: usize, col: usize, hi: u8, lo: u8 },
    /// A line holds fewer than two bytes.
    ShortLine { line: usize },
    /// The first byte of a line is no record kind.
    BadRecordKind { line: usize, kind: u8 },
    /// The length byte is not the number of bytes that follow it.
    BadRecordLength { line: usize, length: u8 },
    /// A record of the right length that has no room for an address byte and
    /// a checksum byte.
    TruncatedRecord { line: usize },
    /// A record is meant for another device address than the one to be
    /// flashed.
    AddressMismatch { specified: u8, requested: u8 },
    /// The image has fewer than two header records.
    InsufficientHeaders,
    /// The first header does not carry a four-byte device ID.
    BadDeviceIdLength { found: usize },
    /// The second header does not carry a four-byte device revision.
    BadDeviceRevLength { found: usize },
    /// The device ID names no known model.
    UnknownDevice { id: u8 },
    /// The image does not have the number of records that its model has.
    LineCountMismatch { expected: usize, found: usize },
    /// The image has so many headers that no data record stands at the line
    /// of the CRC.
    MissingCrcRecord { line: usize },
    /// The record at the line of the CRC does not carry four bytes.
    BadCrcLength { line: usize, found: usize },
}

/// One record of the image, as its line gives it.
#[derive(Debug, PartialEq, Eq)]
pub struct Record {
    pub kind: RendmpHexRecordKind,
    /// The device address that the record is meant for.
    pub address: u8,
    /// The length byte: the number of bytes after it on the line.
    pub length: u8,
    /// The bytes between the address byte and the checksum.
    pub payload: Vec<u8>,
}

/// A record as a mathematical value.
pub struct RecordView {
    pub kind: RendmpHexRecordKind,
    pub address: u8,
    pub length: u8,
    pub payload: Seq<u8>,
}

impl View for Record {
    type V = RecordView;

    open spec fn view(&self) -> RecordView {
        RecordView {
            kind: self.kind,
            address: self.address,
            length: self.length,
            payload: self.payload@,
        }
    }
}

/// The value of a hexadecimal digit in ASCII, of either case.
pub open spec fn spec_hex_digit(c: u8) -> Option<u8> {
    if 0x30 <= c <= 0x39 {
        Some((c - 0x30) as u8)
    } else if 0x61 <= c <= 0x66 {
        Some((c - 0x61 + 10) as u8)
    } else if 0x41 <= c <= 0x46 {
        Some((c - 0x41 + 10) as u8)
    } else {
        None
    }
}

/// The byte that two hexadecimal digits spell, high digit first.
pub open spec fn hex_pair(hi: u8, lo: u8) -> Option<u8> {
    match (spec_hex_digit(hi), spec_hex_digit(lo)) {
        (Some(h), Some(l)) => Some((h * 16 + l) as u8),
        _ => None,
    }
}

/// The `k`-th pair of characters of the line is there and spells a byte.
pub open spec fn pair_ok(line: Seq<u8>, k: int) -> bool {
    2 * k + 1 < line.len() && hex_pair(line[2 * k], line[2 * k + 1]) is Some
}

/// The `k`-th pair is the first one of the line that spells no byte.
pub open spec fn first_bad_pair(line: Seq<u8>, k: int) -> bool {
    &&& 0 <= k
    &&& 2 * k < line.len()
    &&& !pair_ok(line, k)
    &&& forall|j: int| 0 <= j < k ==> pair_ok(line, j)
}

/// The bytes that a line spells, or the error at its first faulty pair.
pub open spec fn line_values(line: Seq<u8>, line_no: usize) -> Result<Seq<u8>, ParseError> {
    if exists|k: int| first_bad_pair(line, k) {
        let k = choose|k: int| first_bad_pair(line, k);
        if 2 * k + 1 >= line.len() {
            Err(ParseError::ShortHex { line: line_no, col: (2 * k + 1) as usize })
        } else {
            Err(
                ParseError::BadHex {
                    line: line_no,
                    col: (2 * k + 1) as usize,
                    hi: line[2 * k],
                    lo: line[2 * k + 1],
                },
            )
        }
    } else {
        Ok(Seq::new((line.len() / 2) as nat, |k: int| hex_pair(line[2 * k], line[2 * k + 1])->Some_0))
    }
}

/// The character that starts a comment line.
pub const COMMENT: u8 = 0x23;

/// A line that carries no record: an empty one, or a comment.
pub open spec fn is_skipped(line: Seq<u8>) -> bool {
    line.len() == 0 || line[0] == COMMENT
}

/// The record that decoded bytes make, or why they make none.  The checks
/// come in this order: two bytes at least, a known kind, the right length,
/// an address byte that names `address`, a checksum byte.
pub open spec fn record_of(vals: Seq<u8>, line_no: usize, address: u8) -> Result<
    RecordView,
    ParseError,
> {
    if vals.len() < 2 {
        Err(ParseError::ShortLine { line: line_no })
    } else if RendmpHexRecordKind::spec_from_u8(vals[0]) is None {
        Err(ParseError::BadRecordKind { line: line_no, kind: vals[0] })
    } else if vals[1] != vals.len() - 2 {
        Err(ParseError::BadRecordLength { line: line_no, length: vals[1] })
    } else if vals.len() < 3 {
        Err(ParseError::TruncatedRecord { line: line_no })
    } else if vals[2] >> 1 != address {
        Err(ParseError::AddressMismatch { specified: vals[2] >> 1, requested: address })
    } else if vals.len() < 4 {
        Err(ParseError::TruncatedRecord { line: line_no })
    } else {
        Ok(
            RecordView {
                kind: RendmpHexRecordKind::spec_from_u8(vals[0])->Some_0,
                address: vals[2] >> 1,
                length: vals[1],
                payload: vals.subrange(3, vals.len() - 1),
            },
        )
    }
}

/// What one line of the file gives: nothing, a record, or an error.
pub open spec fn spec_parse_line(line: Seq<u8>, line_no: usize, address: u8) -> Result<
    Option<RecordView>,
    ParseError,
> {
    if is_skipped(line) {
        Ok(None)
    } else {
        match line_values(line, line_no) {
            Err(e) => Err(e),
            Ok(vals) => match record_of(vals, line_no, address) {
                Err(e) => Err(e),
                Ok(record) => Ok(Some(record)),
            },
        }
    }
}

/// The result of parsing a line, with the record as a mathematical value.
pub open spec fn line_result_view(r: Result<Option<Record>, ParseError>) -> Result<
    Option<RecordView>,
    ParseError,
> {
    match r {
        Ok(Some(record)) => Ok(Some(record@)),
        Ok(None) => Ok(None),
        Err(e) => Err(e),
    }
}

/// The value of a hexadecimal digit in ASCII, of either case.
pub fn hex_digit(c: u8) -> (r: Option<u8>)
    ensures
        r == spec_hex_digit(c),
{
    if 0x30 <= c && c <= 0x39 {
        Some(c - 0x30)
    } else if 0x61 <= c && c <= 0x66 {
        Some(c - 0x61 + 10)
    } else if 0x41 <= c && c <= 0x46 {
        Some(c - 0x41 + 10)
    } else {
        None
    }
}

/// Decodes a line of hexadecimal digit pairs into bytes.
pub fn decode_line(line: &[u8], line_no: usize) -> (r: Result<Vec<u8>, ParseError>)
    ensures
        match r {
            Ok(vals) => line_values(line@, line_no) == Ok::<Seq<u8>, ParseError>(vals@),
            Err(e) => line_values(line@, line_no) == Err::<Seq<u8>, ParseError>(e),
        },
{
    let mut vals: Vec<u8> = Vec::new();
    let mut i: usize = 0;
    while i < line.len()
        invariant
            i % 2 == 0,
            i <= line@.len(),
            vals@.len() == i / 2,
            forall|j: int| 0 <= j < vals@.len() ==> pair_ok(line@, j),
            forall|j: int|
                0 <= j < vals@.len() ==> hex_pair(line@[2 * j], line@[2 * j + 1]) == Some(
                    #[trigger] vals@[j],
                ),
        decreases line@.len() - i,
    {
        let ghost k: int = i as int / 2;
        if i + 1 >= line.len() {
            proof {
                assert(!pair_ok(line@, k));
                lemma_first_bad_pair(line@, k);
            }
            return Err(ParseError::ShortHex { line: line_no, col: i + 1 });
        }
        let pair = match (hex_digit(line[i]), hex_digit(line[i + 1])) {
            (Some(h), Some(l)) => Some(h * 16 + l),
            _ => None,
        };
        assert(pair == hex_pair(line@[2 * k], line@[2 * k + 1]));
        match pair {
            Some(val) => {
                vals.push(val);
            },
            None => {
                proof {
                    assert(!pair_ok(line@, k));
                    lemma_first_bad_pair(line@, k);
                }
                return Err(
                    ParseError::BadHex { line: line_no, col: i + 1, hi: line[i], lo: line[i + 1] },
                );
            },
        }
        i += 2;
    }
    proof {
        assert forall|k: int| !first_bad_pair(line@, k) by {
            if 0 <= k && 2 * k < line@.len() {
                assert(pair_ok(line@, k));
            }
        }
        assert(vals@ =~= Seq::new(
            (line@.len() / 2) as nat,
            |k: int| hex_pair(line@[2 * k], line@[2 * k + 1])->Some_0,
        ));
    }
    Ok(vals)
}

/// A line has at most one first faulty pair.
pub proof fn lemma_first_bad_pair(line: Seq<u8>, k: int)
    requires
        first_bad_pair(line, k),
    ensures
        exists|j: int| first_bad_pair(line, j),
        (choose|j: int| first_bad_pair(line, j)) == k,
{
    let c = choose|j: int| first_bad_pair(line, j);
    if c < k {
        assert(pair_ok(line, c));
    } else if k < c {
        assert(pair_ok(line, k));
    }
}

/// Parses one line of the file: `None` for an empty line or a comment, the
/// record for a record line, or the first fault of the line.
pub fn parse_line(line: &[u8], line_no: usize, address: u8) -> (r: Result<
    Option<Record>,
    ParseError,
>)
    ensures
        line_result_view(r) == spec_parse_line(line@, line_no, address),
{
    if line.len() == 0 || line[0] == COMMENT {
        return Ok(None);
    }
    let vals = match decode_line(line, line_no) {
        Ok(vals) => vals,
        Err(e) => {
            return Err(e);
        },
    };
    if vals.len() < 2 {
        return Err(ParseError::ShortLine { line: line_no });
    }
    let kind = match RendmpHexRecordKind::from_u8(vals[0]) {
        Some(kind) => kind,
        None => {
            return Err(ParseError::BadRecordKind { line: line_no, kind: vals[0] });
        },
    };
    let reclen: usize = vals[1] as usize;
    if reclen != vals.len() - 2 {
        return Err(ParseError::BadRecordLength { line: line_no, length: vals[1] });
    }
    if vals.len() < 3 {
        return Err(ParseError::TruncatedRecord { line: line_no });
    }
    if vals[2] >> 1 != address {
        return Err(ParseError::AddressMismatch { specified: vals[2] >> 1, requested: address });
    }
    if vals.len() < 4 {
        return Err(ParseError::TruncatedRecord { line: line_no });
    }
    let payload = slice_range(vals.as_slice(), 3, reclen + 1);
    Ok(Some(Record { kind, address: vals[2] >> 1, length: vals[1], payload }))
}

/// The views of a list of byte vectors.
pub open spec fn views(v: Seq<Vec<u8>>) -> Seq<Seq<u8>> {
    Seq::new(v.len(), |i: int| v[i]@)
}

/// What line `k` of the file gives; lines are numbered from 1.
pub open spec fn line_result(lines: Seq<Seq<u8>>, k: int, address: u8) -> Result<
    Option<RecordView>,
    ParseError,
> {
    spec_parse_line(lines[k], (k + 1) as usize, address)
}

/// Line `k` is the first line of the file that is at fault.
pub open spec fn first_bad_line(lines: Seq<Seq<u8>>, k: int, address: u8) -> bool {
    &&& 0 <= k < lines.len()
    &&& line_result(lines, k, address) is Err
    &&& forall|j: int| 0 <= j < k ==> #[trigger] line_result(lines, j, address) is Ok
}

/// The records of the lines that give one, in the order of the file.
pub open spec fn records_of(lines: Seq<Seq<u8>>, address: u8) -> Seq<RecordView>
    decreases lines.len(),
{
    if lines.len() == 0 {
        Seq::empty()
    } else {
        let before = records_of(lines.drop_last(), address);
        match line_result(lines, lines.len() - 1, address) {
            Ok(Some(record)) => before.push(record),
            _ => before,
        }
    }
}

/// The payloads of the records of one kind, in order.
pub open spec fn payloads(records: Seq<RecordView>, kind: RendmpHexRecordKind) -> Seq<Seq<u8>>
    decreases records.len(),
{
    if records.len() == 0 {
        Seq::empty()
    } else {
        let before = payloads(records.drop_last(), kind);
        if records.last().kind == kind {
            before.push(records.last().payload)
        } else {
            before
        }
    }
}

/// The four bytes that follow the first byte of a payload, last byte first.
pub open spec fn flip_word(payload: Seq<u8>) -> Seq<u8> {
    seq![payload[4], payload[3], payload[2], payload[1]]
}

/// The number of bytes that follow the first byte of a payload.
pub open spec fn word_len(payload: Seq<u8>) -> usize {
    if payload.len() == 0 {
        0
    } else {
        (payload.len() - 1) as usize
    }
}

/// The index, among the data records, of the record that holds the CRC in
/// an image with `headers` header records.
pub open spec fn crc_index(device: RendmpDevice, headers: int) -> int {
    device.spec_crc_line() - headers - 2
}

/// A parsed image as a mathematical value.
pub struct RendmpHexView {
    pub device: RendmpDevice,
    pub ic_device_id: Seq<u8>,
    pub ic_device_rev: Seq<u8>,
    pub crc: u32,
    pub data: Seq<Seq<u8>>,
}

/// The image that header and data payloads make, or why they make none.
///
/// The checks come in this order: two headers at least; a four-byte device
/// ID in the first; a known model; the record count of that model; a data
/// record at the line of the CRC, of four bytes; a four-byte revision in
/// the second header.
pub open spec fn assemble(headers: Seq<Seq<u8>>, data: Seq<Seq<u8>>) -> Result<
    RendmpHexView,
    ParseError,
> {
    if headers.len() < 2 {
        Err(ParseError::InsufficientHeaders)
    } else if headers[0].len() != 5 {
        Err(ParseError::BadDeviceIdLength { found: word_len(headers[0]) })
    } else {
        match RendmpDevice::spec_from_id(headers[0][3]) {
            Err(_) => Err(ParseError::UnknownDevice { id: headers[0][3] }),
            Ok(device) => {
                let found = headers.len() + data.len();
                let index = crc_index(device, headers.len() as int);
                if found != device.spec_lines() {
                    Err(
                        ParseError::LineCountMismatch {
                            expected: device.spec_lines(),
                            found: found as usize,
                        },
                    )
                } else if index < 0 {
                    Err(ParseError::MissingCrcRecord { line: device.spec_crc_line() })
                } else if data[index].len() != 5 {
                    Err(
                        ParseError::BadCrcLength {
                            line: device.spec_crc_line(),
                            found: word_len(data[index]),
                        },
                    )
                } else if headers[1].len() != 5 {
                    Err(ParseError::BadDeviceRevLength { found: word_len(headers[1]) })
                } else {
                    Ok(
                        RendmpHexView {
                            device,
                            ic_device_id: flip_word(headers[0]),
                            ic_device_rev: flip_word(headers[1]),
                            crc: le_u32(data[index].subrange(1, 5)),
                            data,
                        },
                    )
                }
            },
        }
    }
}

/// The image that the lines of a file give: the fault of the first line
/// that has one, or else what the header and data records make.
pub open spec fn parse_lines(lines: Seq<Seq<u8>>, address: u8) -> Result<
    RendmpHexView,
    ParseError,
> {
    if exists|k: int| first_bad_line(lines, k, address) {
        let k = choose|k: int| first_bad_line(lines, k, address);
        Err(line_result(lines, k, address)->Err_0)
    } else {
        let records = records_of(lines, address);
        assemble(
            payloads(records, RendmpHexRecordKind::Header),
            payloads(records, RendmpHexRecordKind::Data),
        )
    }
}

/// The byte that ends a line.
pub const NEWLINE: u8 = 0x0a;

/// The byte that may stand before the end of a line, and is then dropped.
pub const CARRIAGE_RETURN: u8 = 0x0d;

/// `n` is where the first line of the text ends: at its first newline, or at
/// the end of the text where it has none.
pub open spec fn is_line_end(text: Seq<u8>, n: int) -> bool {
    &&& 0 <= n <= text.len()
    &&& n < text.len() ==> text[n] == NEWLINE
    &&& forall|j: int| 0 <= j < n ==> text[j] != NEWLINE
}

/// Where the first line of the text ends.
pub open spec fn line_end(text: Seq<u8>) -> int {
    choose|n: int| is_line_end(text, n)
}

/// A line without the carriage return at its end, if it has one.
pub open spec fn strip_cr(line: Seq<u8>) -> Seq<u8> {
    if line.len() > 0 && line.last() == CARRIAGE_RETURN {
        line.drop_last()
    } else {
        line
    }
}

/// The lines of a text.  A line ends at a newline, and a carriage return
/// just before that newline is dropped with it; what follows the last
/// newline is a line too, taken as it is, unless it is empty.
pub open spec fn spec_split_lines(text: Seq<u8>) -> Seq<Seq<u8>>
    decreases text.len(),
{
    if text.len() == 0 {
        Seq::empty()
    } else {
        let n = line_end(text);
        if 0 <= n < text.len() {
            seq![strip_cr(text.subrange(0, n))] + spec_split_lines(
                text.subrange(n + 1, text.len() as int),
            )
        } else {
            seq![text]
        }
    }
}

/// The image that the text of a file gives.
pub open spec fn parse_image(text: Seq<u8>, address: u8) -> Result<RendmpHexView, ParseError> {
    parse_lines(spec_split_lines(text), address)
}

/// A parsed HEX image: the model it is for, the device ID and revision it
/// names, its CRC, and the payloads to be written, in order.
#[derive(Debug, PartialEq, Eq)]
pub struct RendmpHex {
    pub device: RendmpDevice,
    pub ic_device_id: [u8; 4],
    pub ic_device_rev: [u8; 4],
    pub crc: u32,
    pub data: Vec<Vec<u8>>,
}

impl View for RendmpHex {
    type V = RendmpHexView;

    open spec fn view(&self) -> RendmpHexView {
        RendmpHexView {
            device: self.device,
            ic_device_id: self.ic_device_id@,
            ic_device_rev: self.ic_device_rev@,
            crc: self.crc,
            data: views(self.data@),
        }
    }
}

impl RendmpHexView {
    /// The number of header records of the file that the image came from:
    /// what the data records leave of the model's record count.
    pub open spec fn headers(self) -> int {
        self.device.spec_lines() - self.data.len()
    }

    /// The image is one that a file can give: it has the record count of its
    /// model with two headers at least, its CRC is what the record at the
    /// line of the CRC holds, its device ID names its model, and no payload
    /// is longer than a length byte allows.
    pub open spec fn wf(self) -> bool {
        let index = crc_index(self.device, self.headers());
        &&& 2 <= self.headers()
        &&& 0 <= index < self.data.len()
        &&& self.data[index].len() == 5
        &&& self.crc == le_u32(self.data[index].subrange(1, 5))
        &&& self.ic_device_id.len() == 4
        &&& self.ic_device_rev.len() == 4
        &&& self.ic_device_id[1] == self.device.spec_id()
        &&& forall|i: int| 0 <= i < self.data.len() ==> (#[trigger] self.data[i]).len() <= 253
    }
}

/// The result of parsing, with the image as a mathematical value.
pub open spec fn image_result_view(r: Result<RendmpHex, ParseError>) -> Result<
    RendmpHexView,
    ParseError,
> {
    match r {
        Ok(image) => Ok(image@),
        Err(e) => Err(e),
    }
}

/// Every payload is short enough for its record's length byte.
pub open spec fn payloads_bounded(payloads: Seq<Seq<u8>>) -> bool {
    forall|i: int| 0 <= i < payloads.len() ==> (#[trigger] payloads[i]).len() <= 253
}

/// Reads the four bytes after the first byte of a payload, last byte first.
fn flip(payload: &Vec<u8>) -> (r: [u8; 4])
    requires
        payload@.len() == 5,
    ensures
        r@ == flip_word(payload@),
{
    let r = [payload[4], payload[3], payload[2], payload[1]];
    assert(r@ =~= flip_word(payload@));
    r
}

fn found_len(payload: &Vec<u8>) -> (r: usize)
    ensures
        r == word_len(payload@),
{
    if payload.len() == 0 {
        0
    } else {
        payload.len() - 1
    }
}

impl RendmpHex {
    /// Makes the image from the payloads of the header records and of the
    /// data records of a file.
    fn assemble(headers: Vec<Vec<u8>>, data: Vec<Vec<u8>>) -> (r: Result<RendmpHex, ParseError>)
        requires
            headers@.len() + data@.len() <= usize::MAX,
            payloads_bounded(views(data@)),
        ensures
            image_result_view(r) == assemble(views(headers@), views(data@)),
            r matches Ok(image) ==> image@.wf(),
    {
        if headers.len() < 2 {
            return Err(ParseError::InsufficientHeaders);
        }
        if headers[0].len() != 5 {
            return Err(ParseError::BadDeviceIdLength { found: found_len(&headers[0]) });
        }
        let ic_device_id = flip(&headers[0]);
        let device = match RendmpDevice::from_id(ic_device_id[1]) {
            Ok(device) => device,
            Err(_) => {
                return Err(ParseError::UnknownDevice { id: ic_device_id[1] });
            },
        };
        let found: usize = headers.len() + data.len();
        let expected: usize = device.lines();
        if found != expected {
            return Err(ParseError::LineCountMismatch { expected, found });
        }
        let crc_line: usize = device.crc_line();
        if headers.len() > crc_line - 2 {
            return Err(ParseError::MissingCrcRecord { line: crc_line });
        }
        let index: usize = crc_line - headers.len() - 2;
        let record = &data[index];
        assert(record@ == views(data@)[index as int]);
        if record.len() != 5 {
            return Err(ParseError::BadCrcLength { line: crc_line, found: found_len(record) });
        }
        if headers[1].len() != 5 {
            return Err(ParseError::BadDeviceRevLength { found: found_len(&headers[1]) });
        }
        let ic_device_rev = flip(&headers[1]);
        let crc: u32 = record[1] as u32 + record[2] as u32 * 0x100 + record[3] as u32 * 0x1_0000
            + record[4] as u32 * 0x100_0000;
        assert(crc == le_u32(record@.subrange(1, 5)));
        Ok(RendmpHex { device, ic_device_id, ic_device_rev, crc, data })
    }

    /// Parses the lines of a HEX file.  `address` is the device address that
    /// is to be flashed; a record for another address rejects the image.
    pub fn from_lines(lines: &Vec<Vec<u8>>, address: u8) -> (r: Result<RendmpHex, ParseError>)
        ensures
            image_result_view(r) == parse_lines(views(lines@), address),
            r matches Ok(image) ==> image@.wf(),
    {
        let mut data: Vec<Vec<u8>> = Vec::new();
        let mut headers: Vec<Vec<u8>> = Vec::new();
        let ghost all = views(lines@);
        let mut ndx: usize = 0;
        while ndx < lines.len()
            invariant
                ndx <= lines@.len(),
                all == views(lines@),
                forall|j: int| 0 <= j < ndx ==> #[trigger] line_result(all, j, address) is Ok,
                headers@.len() + data@.len() <= ndx,
                views(headers@) == payloads(
                    records_of(all.take(ndx as int), address),
                    RendmpHexRecordKind::Header,
                ),
                views(data@) == payloads(
                    records_of(all.take(ndx as int), address),
                    RendmpHexRecordKind::Data,
                ),
                payloads_bounded(views(data@)),
            decreases lines@.len() - ndx,
        {
            let l: usize = ndx + 1;
            let ghost before = records_of(all.take(ndx as int), address);
            proof {
                assert(all[ndx as int] == lines@[ndx as int]@);
                lemma_records_step(all, ndx as int, address);
            }
            match parse_line(lines[ndx].as_slice(), l, address) {
                Err(e) => {
                    proof {
                        lemma_first_bad_line(all, ndx as int, address);
                    }
                    return Err(e);
                },
                Ok(None) => {},
                Ok(Some(record)) => {
                    proof {
                        lemma_payloads_push(before, record@, RendmpHexRecordKind::Header);
                        lemma_payloads_push(before, record@, RendmpHexRecordKind::Data);
                        lemma_record_bounded(all[ndx as int], l, address);
                    }
                    match record.kind {
                        RendmpHexRecordKind::Header => {
                            let ghost old_headers = headers@;
                            headers.push(record.payload);
                            assert(views(headers@) =~= views(old_headers).push(record@.payload));
                        },
                        RendmpHexRecordKind::Data => {
                            let ghost old_data = data@;
                            data.push(record.payload);
                            assert(views(data@) =~= views(old_data).push(record@.payload));
                        },
                    }
                },
            }
            ndx += 1;
        }
        proof {
            assert(all.take(ndx as int) =~= all);
            assert forall|k: int| !first_bad_line(all, k, address) by {
                if 0 <= k < all.len() {
                    assert(line_result(all, k, address) is Ok);
                }
            }
        }
        Self::assemble(headers, data)
    }

    /// Parses the text of a HEX file.  `address` is the device address that
    /// is to be flashed; a record for another address rejects the image.
    pub fn from_bytes(text: &[u8], address: u8) -> (r: Result<RendmpHex, ParseError>)
        ensures
            image_result_view(r) == parse_image(text@, address),
            r matches Ok(image) ==> image@.wf(),
    {
        let lines = split_lines(text);
        Self::from_lines(&lines, address)
    }
}

/// Splits a text into its lines.
pub fn split_lines(text: &[u8]) -> (lines: Vec<Vec<u8>>)
    ensures
        views(lines@) == spec_split_lines(text@),
{
    let mut lines: Vec<Vec<u8>> = Vec::new();
    let mut start: usize = 0;
    let mut i: usize = 0;
    proof {
        assert(text@.subrange(0, text@.len() as int) =~= text@);
        assert(views(lines@) + spec_split_lines(text@) =~= spec_split_lines(text@));
    }
    while i < text.len()
        invariant
            start <= i <= text@.len(),
            forall|j: int| start <= j < i ==> text@[j] != NEWLINE,
            spec_split_lines(text@) == views(lines@) + spec_split_lines(
                text@.subrange(start as int, text@.len() as int),
            ),
        decreases text@.len() - i,
    {
        if text[i] == NEWLINE {
            let end: usize = if start < i && text[i - 1] == CARRIAGE_RETURN {
                i - 1
            } else {
                i
            };
            let line = slice_range(text, start, end);
            proof {
                let rest = text@.subrange(start as int, text@.len() as int);
                lemma_line_end(rest, i - start);
                assert(rest.subrange(0, i - start) =~= text@.subrange(start as int, i as int));
                assert(rest.subrange(i - start + 1, rest.len() as int) =~= text@.subrange(
                    i + 1,
                    text@.len() as int,
                ));
                assert(line@ =~= strip_cr(text@.subrange(start as int, i as int)));
                assert(views(lines@.push(line)) =~= views(lines@) + seq![line@]);
            }
            lines.push(line);
            start = i + 1;
        }
        i += 1;
    }
    if start < text.len() {
        let line = slice_range(text, start, text.len());
        proof {
            let rest = text@.subrange(start as int, text@.len() as int);
            lemma_line_end(rest, rest.len() as int);
            assert(views(lines@.push(line)) =~= views(lines@) + seq![line@]);
        }
        lines.push(line);
    } else {
        assert(views(lines@) + Seq::<Seq<u8>>::empty() =~= views(lines@));
    }
    lines
}

/// The bytes of `text` from `from` up to `to`.
fn slice_range(text: &[u8], from: usize, to: usize) -> (r: Vec<u8>)
    requires
        from <= to <= text@.len(),
    ensures
        r@ == text@.subrange(from as int, to as int),
{
    let mut r: Vec<u8> = Vec::new();
    let mut i: usize = from;
    while i < to
        invariant
            from <= i <= to <= text@.len(),
            r@ == text@.subrange(from as int, i as int),
        decreases to - i,
    {
        r.push(text[i]);
        assert(r@ =~= text@.subrange(from as int, i + 1));
        i += 1;
    }
    r
}

/// The first line of a text ends at one place only.
pub proof fn lemma_line_end(text: Seq<u8>, n: int)
    requires
        is_line_end(text, n),
    ensures
        line_end(text) == n,
{
    let c = line_end(text);
    assert(is_line_end(text, c));
    if c < n {
        assert(text[c] != NEWLINE);
    } else if n < c {
        assert(text[n] != NEWLINE);
    }
}

/// A file has at most one first faulty line.
pub proof fn lemma_first_bad_line(lines: Seq<Seq<u8>>, k: int, address: u8)
    requires
        first_bad_line(lines, k, address),
    ensures
        exists|j: int| first_bad_line(lines, j, address),
        (choose|j: int| first_bad_line(lines, j, address)) == k,
{
    let c = choose|j: int| first_bad_line(lines, j, address);
    if c < k {
        assert(line_result(lines, c, address) is Ok);
    } else if k < c {
        assert(line_result(lines, k, address) is Ok);
    }
}

/// The records of one line more are those of the lines before, and the
/// record of that line if it gives one.
pub proof fn lemma_records_step(lines: Seq<Seq<u8>>, n: int, address: u8)
    requires
        0 <= n < lines.len(),
    ensures
        records_of(lines.take(n + 1), address) == match line_result(lines, n, address) {
            Ok(Some(record)) => records_of(lines.take(n), address).push(record),
            _ => records_of(lines.take(n), address),
        },
{
    let prefix = lines.take(n + 1);
    assert(prefix.drop_last() =~= lines.take(n));
    assert(prefix[n] == lines[n]);
}

/// The payloads of one record more.
pub proof fn lemma_payloads_push(
    records: Seq<RecordView>,
    record: RecordView,
    kind: RendmpHexRecordKind,
)
    ensures
        payloads(records.push(record), kind) == if record.kind == kind {
            payloads(records, kind).push(record.payload)
        } else {
            payloads(records, kind)
        },
{
    assert(records.push(record).drop_last() =~= records);
}

/// The payload of a record is at most 253 bytes long: its length byte counts
/// it together with the address byte and the checksum.
pub proof fn lemma_record_bounded(line: Seq<u8>, line_no: usize, address: u8)
    ensures
        spec_parse_line(line, line_no, address) matches Ok(Some(record)) ==> record.payload.len()
            + 2 == record.length && record.payload.len() <= 253,
{
}

/// A file with a faulty line has a first faulty line.
pub proof fn lemma_some_bad_line(lines: Seq<Seq<u8>>, k: int, address: u8)
    requires
        0 <= k < lines.len(),
        line_result(lines, k, address) is Err,
    ensures
        exists|j: int| first_bad_line(lines, j, address),
    decreases k,
{
    if exists|j: int| 0 <= j < k && line_result(lines, j, address) is Err {
        let j = choose|j: int| 0 <= j < k && line_result(lines, j, address) is Err;
        lemma_some_bad_line(lines, j, address);
    } else {
        assert(first_bad_line(lines, k, address));
    }
}

/// A record for another device address rejects the image, wherever in the
/// file it stands: if any line that is neither empty nor a comment spells
/// bytes whose third, shifted right by one bit, is not `address`, then
/// parsing fails.
pub proof fn lemma_address_mismatch_rejected(text: Seq<u8>, address: u8, k: int)
    requires
        0 <= k < spec_split_lines(text).len(),
        !is_skipped(spec_split_lines(text)[k]),
        line_values(spec_split_lines(text)[k], (k + 1) as usize) matches Ok(vals) && vals.len() >= 3
            && vals[2] >> 1 != address,
    ensures
        parse_image(text, address) is Err,
        parse_lines(spec_split_lines(text), address) is Err,
{
    let lines = spec_split_lines(text);
    assert(line_result(lines, k, address) is Err);
    lemma_some_bad_line(lines, k, address);
}

/// The same for the lines of a file, however they were split.
pub proof fn lemma_address_mismatch_rejected_lines(lines: Seq<Seq<u8>>, address: u8, k: int)
    requires
        0 <= k < lines.len(),
        !is_skipped(lines[k]),
        line_values(lines[k], (k + 1) as usize) matches Ok(vals) && vals.len() >= 3 && vals[2] >> 1
            != address,
    ensures
        parse_lines(lines, address) is Err,
{
    assert(line_result(lines, k, address) is Err);
    lemma_some_bad_line(lines, k, address);
}

/// The lines of the file are well formed for `device`: none is at fault,
/// there are two headers at least, each of the first two carries four bytes
/// after its first, the first names `device`, the records are as many as the
/// model has, and the data record at the line of the CRC carries four bytes
/// after its first.
pub open spec fn well_formed(lines: Seq<Seq<u8>>, address: u8, device: RendmpDevice) -> bool {
    let records = records_of(lines, address);
    let headers = payloads(records, RendmpHexRecordKind::Header);
    let data = payloads(records, RendmpHexRecordKind::Data);
    &&& forall|k: int| 0 <= k < lines.len() ==> #[trigger] line_result(lines, k, address) is Ok
    &&& headers.len() >= 2
    &&& headers[0].len() == 5
    &&& headers[1].len() == 5
    &&& headers[0][3] == device.spec_id()
    &&& headers.len() + data.len() == device.spec_lines()
    &&& crc_index(device, headers.len() as int) >= 0
    &&& data[crc_index(device, headers.len() as int)].len() == 5
}

/// A well-formed file parses, and the CRC of its image is what the data
/// record at the line of the CRC holds after its first byte, low byte
/// first.  The image is for the model that the first header names, and
/// carries the payloads of the data records.
pub proof fn lemma_well_formed_parses(lines: Seq<Seq<u8>>, address: u8, device: RendmpDevice)
    requires
        well_formed(lines, address, device),
    ensures
        parse_lines(lines, address) matches Ok(image) && image.device == device && image.data
            == payloads(records_of(lines, address), RendmpHexRecordKind::Data) && ({
            let record = image.data[crc_index(device, device.spec_lines() - image.data.len())];
            image.crc == record[1] + record[2] * 0x100 + record[3] * 0x1_0000 + record[4]
                * 0x100_0000
        }),
{
    assert forall|k: int| !first_bad_line(lines, k, address) by {
        if 0 <= k < lines.len() {
            assert(line_result(lines, k, address) is Ok);
        }
    }
    crate::device::lemma_from_id_finds(device);
}

/// The same for the text of a file.
pub proof fn lemma_well_formed_text_parses(text: Seq<u8>, address: u8, device: RendmpDevice)
    requires
        well_formed(spec_split_lines(text), address, device),
    ensures
        parse_image(text, address) matches Ok(image) && image.device == device && image.data
            == payloads(
            records_of(spec_split_lines(text), address),
            RendmpHexRecordKind::Data,
        ) && ({
            let record = image.data[crc_index(device, device.spec_lines() - image.data.len())];
            image.crc == record[1] + record[2] * 0x100 + record[3] * 0x1_0000 + record[4]
                * 0x100_0000
        }),
{
    lemma_well_formed_parses(spec_split_lines(text), address, device);
}

} // verus!
