//! Ingesting the text that the vendor's configuration software writes, and
//! turning it into the payloads that configure a device.
//!
//! A line of the text has four fields: a name, a value, a `#`, and an
//! address.  Value and address are hexadecimal numbers with the prefix `0x`.
//! The width of the value is that of its text, and an address of more than
//! two digits is one of device memory, not the code of a PMBus command.

use vstd::prelude::*;
use vstd::string::StringExecFns;
use crate::bytes::{le_bytes_u16, le_bytes_u32};
use crate::ops::{CommandInfo, CommandTable, DmaCommand, ProtocolError};
use crate::text::{
    parse_u16, parse_u32, parse_u8, parsed_u16, parsed_u32, parsed_u8, split_whitespace,
    starts_with, strings_view, whitespace_fields,
};

verus! {

/// Where a payload goes.
#[derive(Debug, PartialEq, Eq)]
pub enum Address {
    /// To device memory at this address, by the indirect addressing scheme.
    Dma(u16),
    /// To the PMBus command with this code and name.
    Pmbus(u8, String),
}

/// An address as a mathematical value.
pub enum AddressView {
    Dma(u16),
    Pmbus(u8, Seq<char>),
}

impl View for Address {
    type V = AddressView;

    open spec fn view(&self) -> AddressView {
        match self {
            Address::Dma(addr) => AddressView::Dma(*addr),
            Address::Pmbus(code, name) => AddressView::Pmbus(*code, name@),
        }
    }
}

/// A payload and where it goes.
#[derive(Debug, PartialEq, Eq)]
pub struct Packet {
    pub address: Address,
    pub payload: Vec<u8>,
}

/// A packet as a mathematical value.
pub struct PacketView {
    pub address: AddressView,
    pub payload: Seq<u8>,
}

impl View for Packet {
    type V = PacketView;

    open spec fn view(&self) -> PacketView {
        PacketView { address: self.address@, payload: self.payload@ }
    }
}

/// Why a text is rejected.  Lines count from 1.
#[derive(Copy, Clone, Debug, PartialEq, Eq, Structural)]
pub enum IngestError {
    /// The line does not have four fields with a `#` as the third.
    Malformed { line: usize },
    /// The value does not start with `0x`.
    BadPayloadPrefix { line: usize },
    /// The value spells no number.
    BadPayload { line: usize },
    /// The value is not two, four or eight digits wide.
    BadPayloadSize { line: usize },
    /// The address does not start with `0x`.
    BadAddress { line: usize },
    /// The address is wider than two digits and spells no 16-bit number.
    BadDmaAddress { line: usize },
    /// The address is at most two digits wide and spells no 8-bit number.
    BadPmbusAddress { line: usize },
    /// The address is the code of no command that the device has.
    UnknownCommand { line: usize, code: u8 },
    /// The device has no command with the code `COMMIT`.
    NoCommit,
}

/// The code of the command that ends a configuration and takes it into
/// use.
pub const COMMIT: u8 = 0xe7;

/// The name of the command with the given code.  Codes from `0xff` on are
/// never looked at.
pub open spec fn name_of(commands: Seq<Option<CommandInfo>>, code: u8) -> Option<Seq<char>> {
    if code < 0xff && code < commands.len() {
        match commands[code as int] {
            Some(info) => Some(info.name@),
            None => None,
        }
    } else {
        None
    }
}

fn command_name(commands: &Vec<Option<CommandInfo>>, code: u8) -> (r: Option<String>)
    ensures
        match r {
            Some(name) => name_of(commands@, code) == Some(name@),
            None => name_of(commands@, code) is None,
        },
{
    if code < 0xff && (code as usize) < commands.len() {
        match &commands[code as usize] {
            Some(info) => Some(info.name.clone()),
            None => None,
        }
    } else {
        None
    }
}

/// The number of bytes that a string takes.
pub open spec fn byte_len(s: Seq<char>) -> usize {
    vstd::utf8::encode_utf8(s).len() as usize
}

/// The bytes of a value, low byte first.  The width of its text decides
/// whether it is read as 8, 16 or 32 bits.
pub open spec fn payload_of(value: Seq<char>, line: usize) -> Result<Seq<u8>, IngestError> {
    if !"0x"@.is_prefix_of(value) {
        Err(IngestError::BadPayloadPrefix { line })
    } else if byte_len(value) == 4 {
        spec_payload_from(Number::Byte(parsed_u8(value)), line)
    } else if byte_len(value) == 6 {
        spec_payload_from(Number::Word(parsed_u16(value)), line)
    } else if byte_len(value) == 10 {
        spec_payload_from(Number::Long(parsed_u32(value)), line)
    } else {
        Err(IngestError::BadPayloadSize { line })
    }
}

/// Where a payload goes.  An address whose text is longer than four bytes
/// is one of device memory; any other is the code of a PMBus command, which
/// the device must have.
pub open spec fn address_of(
    address: Seq<char>,
    line: usize,
    commands: Seq<Option<CommandInfo>>,
) -> Result<AddressView, IngestError> {
    if !"0x"@.is_prefix_of(address) {
        Err(IngestError::BadAddress { line })
    } else if byte_len(address) > 4 {
        spec_dma_address_from(parsed_u16(address), line)
    } else {
        spec_pmbus_address_from(parsed_u8(address), line, commands)
    }
}

/// What one line of the text gives: nothing for an empty line or a
/// comment, else its packet, or the first fault of the line.  The value is
/// looked at before the address.
pub open spec fn spec_ingest_line(
    line: Seq<char>,
    lineno: usize,
    commands: Seq<Option<CommandInfo>>,
) -> Result<Option<PacketView>, IngestError> {
    if line.len() == 0 || "#"@.is_prefix_of(line) {
        Ok(None)
    } else {
        match spec_ingest_fields(whitespace_fields(line), lineno, commands) {
            Err(e) => Err(e),
            Ok(packet) => Ok(Some(packet)),
        }
    }
}

/// The result of ingesting a line, with the packet as a mathematical value.
pub open spec fn packet_result_view(r: Result<Option<Packet>, IngestError>) -> Result<
    Option<PacketView>,
    IngestError,
> {
    match r {
        Ok(Some(packet)) => Ok(Some(packet@)),
        Ok(None) => Ok(None),
        Err(e) => Err(e),
    }
}

/// A number as the parser of numbers read it, in the width that was asked
/// of it; `None` where the text spells no number of that width.
#[derive(Copy, Clone, Debug, PartialEq, Eq, Structural)]
pub enum Number {
    Byte(Option<u8>),
    Word(Option<u16>),
    Long(Option<u32>),
}

/// The bytes of a number that was read, low byte first.
pub open spec fn spec_payload_from(number: Number, line: usize) -> Result<Seq<u8>, IngestError> {
    match number {
        Number::Byte(Some(v)) => Ok(seq![v]),
        Number::Word(Some(v)) => Ok(le_bytes_u16(v)),
        Number::Long(Some(v)) => Ok(le_bytes_u32(v)),
        _ => Err(IngestError::BadPayload { line }),
    }
}

/// Turns a number that was read into the bytes of a payload, low byte
/// first.
pub fn payload_from(number: Number, line: usize) -> (r: Result<Vec<u8>, IngestError>)
    ensures
        match r {
            Ok(bytes) => spec_payload_from(number, line) == Ok::<Seq<u8>, IngestError>(bytes@),
            Err(e) => spec_payload_from(number, line) == Err::<Seq<u8>, IngestError>(e),
        },
{
    let mut bytes: Vec<u8> = Vec::new();
    match number {
        Number::Byte(Some(v)) => {
            bytes.push(v);
            assert(bytes@ =~= seq![v]);
        },
        Number::Word(Some(v)) => {
            bytes.push((v % 256) as u8);
            bytes.push((v / 256) as u8);
            assert(bytes@ =~= le_bytes_u16(v));
        },
        Number::Long(Some(v)) => {
            bytes.push((v % 256) as u8);
            bytes.push((v / 256 % 256) as u8);
            bytes.push((v / 65536 % 256) as u8);
            bytes.push((v / 16777216) as u8);
            assert(bytes@ =~= le_bytes_u32(v));
        },
        _ => {
            return Err(IngestError::BadPayload { line });
        },
    }
    Ok(bytes)
}

/// The address of device memory that was read.
pub open spec fn spec_dma_address_from(parsed: Option<u16>, line: usize) -> Result<
    AddressView,
    IngestError,
> {
    match parsed {
        Some(addr) => Ok(AddressView::Dma(addr)),
        None => Err(IngestError::BadDmaAddress { line }),
    }
}

/// Turns a 16-bit number that was read into an address of device memory.
pub fn dma_address_from(parsed: Option<u16>, line: usize) -> (r: Result<Address, IngestError>)
    ensures
        match r {
            Ok(a) => spec_dma_address_from(parsed, line) == Ok::<AddressView, IngestError>(a@),
            Err(e) => spec_dma_address_from(parsed, line) == Err::<AddressView, IngestError>(e),
        },
{
    match parsed {
        Some(dmaaddr) => Ok(Address::Dma(dmaaddr)),
        None => Err(IngestError::BadDmaAddress { line }),
    }
}

/// The PMBus command whose code was read.
pub open spec fn spec_pmbus_address_from(
    parsed: Option<u8>,
    line: usize,
    commands: Seq<Option<CommandInfo>>,
) -> Result<AddressView, IngestError> {
    match parsed {
        Some(code) => match name_of(commands, code) {
            Some(name) => Ok(AddressView::Pmbus(code, name)),
            None => Err(IngestError::UnknownCommand { line, code }),
        },
        None => Err(IngestError::BadPmbusAddress { line }),
    }
}

/// Turns an 8-bit number that was read into the PMBus command with that
/// code, which the device must have.
pub fn pmbus_address_from(
    parsed: Option<u8>,
    line: usize,
    commands: &Vec<Option<CommandInfo>>,
) -> (r: Result<Address, IngestError>)
    ensures
        match r {
            Ok(a) => spec_pmbus_address_from(parsed, line, commands@) == Ok::<
                AddressView,
                IngestError,
            >(a@),
            Err(e) => spec_pmbus_address_from(parsed, line, commands@) == Err::<
                AddressView,
                IngestError,
            >(e),
        },
{
    match parsed {
        Some(paddr) => match command_name(commands, paddr) {
            Some(name) => Ok(Address::Pmbus(paddr, name)),
            None => Err(IngestError::UnknownCommand { line, code: paddr }),
        },
        None => Err(IngestError::BadPmbusAddress { line }),
    }
}

/// Reads the value of a line: a hexadecimal number of two, four or eight
/// digits behind `0x`.
pub fn read_payload(value: &str, line: usize) -> (r: Result<Vec<u8>, IngestError>)
    ensures
        match r {
            Ok(bytes) => payload_of(value@, line) == Ok::<Seq<u8>, IngestError>(bytes@),
            Err(e) => payload_of(value@, line) == Err::<Seq<u8>, IngestError>(e),
        },
{
    if !starts_with(value, "0x") {
        return Err(IngestError::BadPayloadPrefix { line });
    }
    let width: usize = value.len();
    if width == 4 {
        payload_from(Number::Byte(parse_u8(value)), line)
    } else if width == 6 {
        payload_from(Number::Word(parse_u16(value)), line)
    } else if width == 10 {
        payload_from(Number::Long(parse_u32(value)), line)
    } else {
        Err(IngestError::BadPayloadSize { line })
    }
}

/// Reads the address of a line: a hexadecimal number behind `0x`, which
/// is an address of device memory if it is wider than two digits, and else
/// the code of a PMBus command.
pub fn read_address(address: &str, line: usize, commands: &Vec<Option<CommandInfo>>) -> (r:
    Result<Address, IngestError>)
    ensures
        match r {
            Ok(a) => address_of(address@, line, commands@) == Ok::<AddressView, IngestError>(a@),
            Err(e) => address_of(address@, line, commands@) == Err::<AddressView, IngestError>(e),
        },
{
    if !starts_with(address, "0x") {
        return Err(IngestError::BadAddress { line });
    }
    if address.len() > 4 {
        dma_address_from(parse_u16(address), line)
    } else {
        pmbus_address_from(parse_u8(address), line, commands)
    }
}

/// What the fields of a line give.
pub open spec fn spec_ingest_fields(
    contents: Seq<Seq<char>>,
    lineno: usize,
    commands: Seq<Option<CommandInfo>>,
) -> Result<PacketView, IngestError> {
    if contents.len() != 4 || contents[2] != "#"@ {
        Err(IngestError::Malformed { line: lineno })
    } else {
        match payload_of(contents[1], lineno) {
            Err(e) => Err(e),
            Ok(payload) => match address_of(contents[3], lineno, commands) {
                Err(e) => Err(e),
                Ok(address) => Ok(PacketView { address, payload }),
            },
        }
    }
}

/// Makes the packet of a line from the fields of the line.
pub fn ingest_fields(
    contents: &Vec<String>,
    lineno: usize,
    commands: &Vec<Option<CommandInfo>>,
) -> (r: Result<Packet, IngestError>)
    ensures
        match r {
            Ok(packet) => spec_ingest_fields(strings_view(contents@), lineno, commands@) == Ok::<
                PacketView,
                IngestError,
            >(packet@),
            Err(e) => spec_ingest_fields(strings_view(contents@), lineno, commands@) == Err::<
                PacketView,
                IngestError,
            >(e),
        },
{
    let ghost fields = strings_view(contents@);
    if contents.len() != 4 {
        return Err(IngestError::Malformed { line: lineno });
    }
    assert(fields[1] == contents@[1]@ && fields[2] == contents@[2]@ && fields[3] == contents@[3]@);
    let hash = String::from_str("#");
    if contents[2] != hash {
        return Err(IngestError::Malformed { line: lineno });
    }
    let payload = match read_payload(contents[1].as_str(), lineno) {
        Ok(payload) => payload,
        Err(e) => {
            return Err(e);
        },
    };
    let address = match read_address(contents[3].as_str(), lineno, commands) {
        Ok(address) => address,
        Err(e) => {
            return Err(e);
        },
    };
    Ok(Packet { address, payload })
}

/// Ingests one line of the text.  `commands[code]` is what the command
/// database says of `code`.
pub fn ingest_line(line: &str, lineno: usize, commands: &Vec<Option<CommandInfo>>) -> (r: Result<
    Option<Packet>,
    IngestError,
>)
    ensures
        packet_result_view(r) == spec_ingest_line(line@, lineno, commands@),
{
    if line.is_empty() || starts_with(line, "#") {
        return Ok(None);
    }
    let contents = split_whitespace(line);
    match ingest_fields(&contents, lineno, commands) {
        Ok(packet) => Ok(Some(packet)),
        Err(e) => Err(e),
    }
}

/// What line `k` of the text gives; lines are numbered from 1.
pub open spec fn ingest_result(
    lines: Seq<Seq<char>>,
    k: int,
    commands: Seq<Option<CommandInfo>>,
) -> Result<Option<PacketView>, IngestError> {
    spec_ingest_line(lines[k], (k + 1) as usize, commands)
}

/// Line `k` is the first line of the text that is at fault.
pub open spec fn first_bad_line(
    lines: Seq<Seq<char>>,
    k: int,
    commands: Seq<Option<CommandInfo>>,
) -> bool {
    &&& 0 <= k < lines.len()
    &&& ingest_result(lines, k, commands) is Err
    &&& forall|j: int| 0 <= j < k ==> #[trigger] ingest_result(lines, j, commands) is Ok
}

/// The packets of the lines that give one, in the order of the text.
pub open spec fn packets_of(lines: Seq<Seq<char>>, commands: Seq<Option<CommandInfo>>) -> Seq<
    PacketView,
>
    decreases lines.len(),
{
    if lines.len() == 0 {
        Seq::empty()
    } else {
        let before = packets_of(lines.drop_last(), commands);
        match ingest_result(lines, lines.len() - 1, commands) {
            Ok(Some(packet)) => before.push(packet),
            _ => before,
        }
    }
}

/// The packet that ends every configuration: the value 1 as a 16-bit word
/// for the command `COMMIT`.
pub open spec fn commit_packet(name: Seq<char>) -> PacketView {
    PacketView { address: AddressView::Pmbus(COMMIT, name), payload: seq![1u8, 0u8] }
}

/// The packets that a text gives: the fault of the first line that has one,
/// or else the packets of its lines and the packet that ends the
/// configuration.
pub open spec fn spec_ingest(lines: Seq<Seq<char>>, commands: Seq<Option<CommandInfo>>) -> Result<
    Seq<PacketView>,
    IngestError,
> {
    if exists|k: int| first_bad_line(lines, k, commands) {
        let k = choose|k: int| first_bad_line(lines, k, commands);
        Err(ingest_result(lines, k, commands)->Err_0)
    } else {
        match name_of(commands, COMMIT) {
            None => Err(IngestError::NoCommit),
            Some(name) => Ok(packets_of(lines, commands).push(commit_packet(name))),
        }
    }
}

/// The views of a list of packets.
pub open spec fn packets_view(packets: Seq<Packet>) -> Seq<PacketView> {
    Seq::new(packets.len(), |i: int| packets[i]@)
}

/// A text has at most one first faulty line.
pub proof fn lemma_first_bad_line(
    lines: Seq<Seq<char>>,
    k: int,
    commands: Seq<Option<CommandInfo>>,
)
    requires
        first_bad_line(lines, k, commands),
    ensures
        exists|j: int| first_bad_line(lines, j, commands),
        (choose|j: int| first_bad_line(lines, j, commands)) == k,
{
    let c = choose|j: int| first_bad_line(lines, j, commands);
    if c < k {
        assert(ingest_result(lines, c, commands) is Ok);
    } else if k < c {
        assert(ingest_result(lines, k, commands) is Ok);
    }
}

/// Ingests the lines of a text.  `commands[code]` is what the command
/// database says of `code`.
pub fn rendmp_ingest(lines: &Vec<String>, commands: &Vec<Option<CommandInfo>>) -> (r: Result<
    Vec<Packet>,
    IngestError,
>)
    ensures
        match r {
            Ok(packets) => spec_ingest(strings_view(lines@), commands@) == Ok::<
                Seq<PacketView>,
                IngestError,
            >(packets_view(packets@)),
            Err(e) => spec_ingest(strings_view(lines@), commands@) == Err::<
                Seq<PacketView>,
                IngestError,
            >(e),
        },
{
    let mut packets: Vec<Packet> = Vec::new();
    let ghost all = strings_view(lines@);
    let mut ndx: usize = 0;
    while ndx < lines.len()
        invariant
            ndx <= lines@.len(),
            all == strings_view(lines@),
            forall|j: int| 0 <= j < ndx ==> #[trigger] ingest_result(all, j, commands@) is Ok,
            packets_view(packets@) == packets_of(all.take(ndx as int), commands@),
        decreases lines@.len() - ndx,
    {
        let lineno: usize = ndx + 1;
        proof {
            assert(all[ndx as int] == lines@[ndx as int]@);
            assert(all.take(ndx + 1).drop_last() =~= all.take(ndx as int));
            assert(all.take(ndx + 1)[ndx as int] == all[ndx as int]);
        }
        match ingest_line(lines[ndx].as_str(), lineno, commands) {
            Err(e) => {
                proof {
                    lemma_first_bad_line(all, ndx as int, commands@);
                }
                return Err(e);
            },
            Ok(None) => {},
            Ok(Some(packet)) => {
                let ghost before = packets@;
                packets.push(packet);
                assert(packets_view(packets@) =~= packets_view(before).push(packet@));
            },
        }
        ndx += 1;
    }
    proof {
        assert(all.take(ndx as int) =~= all);
        assert forall|k: int| !first_bad_line(all, k, commands@) by {
            if 0 <= k < all.len() {
                assert(ingest_result(all, k, commands@) is Ok);
            }
        }
    }
    let name = match command_name(commands, COMMIT) {
        Some(name) => name,
        None => {
            return Err(IngestError::NoCommit);
        },
    };
    let mut payload: Vec<u8> = Vec::new();
    payload.push(1);
    payload.push(0);
    let ghost before = packets@;
    let last = Packet { address: Address::Pmbus(COMMIT, name), payload };
    assert(last@.payload =~= seq![1u8, 0u8]);
    packets.push(last);
    assert(packets_view(packets@) =~= packets_view(before).push(commit_packet(name@)));
    Ok(packets)
}

/// The chunks that write a packet: for device memory the command that sets
/// the address with the address, low byte first, and then the command that
/// writes at it with the payload; for a PMBus command its code with the
/// payload.
pub open spec fn spec_packet_chunks(packet: PacketView, dmaaddr: u8, dmafix: u8) -> Seq<Seq<u8>> {
    match packet.address {
        AddressView::Dma(addr) => seq![
            seq![dmaaddr] + le_bytes_u16(addr),
            seq![dmafix] + packet.payload,
        ],
        AddressView::Pmbus(code, _) => seq![seq![code] + packet.payload],
    }
}

fn prepend(first: u8, rest: &Vec<u8>) -> (r: Vec<u8>)
    ensures
        r@ == seq![first] + rest@,
{
    let mut r: Vec<u8> = Vec::new();
    r.push(first);
    let mut i: usize = 0;
    while i < rest.len()
        invariant
            i <= rest@.len(),
            r@ == seq![first] + rest@.take(i as int),
        decreases rest@.len() - i,
    {
        r.push(rest[i]);
        assert(r@ =~= seq![first] + rest@.take(i + 1));
        i += 1;
    }
    assert(rest@.take(i as int) =~= rest@);
    r
}

/// Builds the chunks that write a packet.
pub fn packet_chunks(packet: &Packet, dmaaddr: u8, dmafix: u8) -> (r: Vec<Vec<u8>>)
    ensures
        crate::hex::views(r@) == spec_packet_chunks(packet@, dmaaddr, dmafix),
{
    let mut chunks: Vec<Vec<u8>> = Vec::new();
    match &packet.address {
        Address::Dma(addr) => {
            let mut set: Vec<u8> = Vec::new();
            set.push(dmaaddr);
            set.push((*addr % 256) as u8);
            set.push((*addr / 256) as u8);
            assert(set@ =~= seq![dmaaddr] + le_bytes_u16(*addr));
            chunks.push(set);
            chunks.push(prepend(dmafix, &packet.payload));
        },
        Address::Pmbus(code, _) => {
            chunks.push(prepend(*code, &packet.payload));
        },
    }
    assert(crate::hex::views(chunks@) =~= spec_packet_chunks(packet@, dmaaddr, dmafix));
    chunks
}

/// The chunks that write the packets, packet by packet and in order.
pub open spec fn all_chunks(packets: Seq<PacketView>, dmaaddr: u8, dmafix: u8) -> Seq<Seq<u8>>
    decreases packets.len(),
{
    if packets.len() == 0 {
        Seq::empty()
    } else {
        all_chunks(packets.drop_last(), dmaaddr, dmafix) + spec_packet_chunks(
            packets.last(),
            dmaaddr,
            dmafix,
        )
    }
}

/// The table of payloads that configures a device: the chunks of the
/// packets in order, made with the codes of `DMAADDR` and `DMAFIX`.  The two
/// commands must be there, the first as a write of a 16-bit word and the
/// second as a write of a 32-bit word; `DMAADDR` is looked at first.
pub open spec fn spec_rendmp_gen(
    packets: Seq<PacketView>,
    dmaaddr: Option<crate::ops::CommandEntry>,
    dmafix: Option<crate::ops::CommandEntry>,
) -> Result<Seq<Seq<u8>>, ProtocolError> {
    match crate::ops::resolve(dmaaddr, DmaCommand::Address) {
        Err(e) => Err(e),
        Ok(addr) => match crate::ops::resolve(dmafix, DmaCommand::Fixed) {
            Err(e) => Err(e),
            Ok(fix) => Ok(all_chunks(packets, addr, fix)),
        },
    }
}

/// Builds the table of payloads that configures a device from the packets
/// of a text and the commands of the device.
pub fn rendmp_gen(packets: &Vec<Packet>, all: &CommandTable) -> (r: Result<
    Vec<Vec<u8>>,
    ProtocolError,
>)
    ensures
        match r {
            Ok(table) => spec_rendmp_gen(
                packets_view(packets@),
                all.spec_get(DmaCommand::Address.spec_name()),
                all.spec_get(DmaCommand::Fixed.spec_name()),
            ) == Ok::<Seq<Seq<u8>>, ProtocolError>(crate::hex::views(table@)),
            Err(e) => spec_rendmp_gen(
                packets_view(packets@),
                all.spec_get(DmaCommand::Address.spec_name()),
                all.spec_get(DmaCommand::Fixed.spec_name()),
            ) == Err::<Seq<Seq<u8>>, ProtocolError>(e),
        },
{
    let dmaaddr = match all.dma_command(DmaCommand::Address) {
        Ok(code) => code,
        Err(e) => {
            return Err(e);
        },
    };
    let dmafix = match all.dma_command(DmaCommand::Fixed) {
        Ok(code) => code,
        Err(e) => {
            return Err(e);
        },
    };
    let ghost all_packets = packets_view(packets@);
    let mut table: Vec<Vec<u8>> = Vec::new();
    let mut i: usize = 0;
    while i < packets.len()
        invariant
            i <= packets@.len(),
            all_packets == packets_view(packets@),
            crate::hex::views(table@) == all_chunks(all_packets.take(i as int), dmaaddr, dmafix),
        decreases packets@.len() - i,
    {
        let mut chunks = packet_chunks(&packets[i], dmaaddr, dmafix);
        proof {
            assert(all_packets.take(i + 1).drop_last() =~= all_packets.take(i as int));
            assert(all_packets.take(i + 1).last() == packets@[i as int]@);
        }
        let ghost before = table@;
        let ghost added = chunks@;
        table.append(&mut chunks);
        assert(crate::hex::views(table@) =~= crate::hex::views(before) + crate::hex::views(added));
        i += 1;
    }
    assert(all_packets.take(i as int) =~= all_packets);
    Ok(table)
}

} // verus!
