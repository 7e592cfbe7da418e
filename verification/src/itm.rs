//! Headers and payloads of ITM trace packets.

use vstd::prelude::*;

verus! {

/// The decoded payload of a packet.
#[allow(inconsistent_fields)]
#[derive(Debug, PartialEq, Eq)]
pub enum ITMPayload {
    /// A packet without a payload of interest.
    Empty,
    LocalTimestamp { timestamp: u32, delayed: bool, early: bool },
    Extension { payload: u32, sh: bool },
    GlobalTimestamp { timestamp: u64 },
    Instrumentation { port: u32, payload: Vec<u8> },
    Hardware { source: u32, payload: [u8; 4], len: usize },
}

/// The header of a packet: its kind, with the fields that the header byte
/// carries.
#[derive(Copy, Clone, Debug, PartialEq, Eq, Structural)]
pub enum ITMHeader {
    Sync,
    Overflow,
    LocalTimestamp1 { tc: u8 },
    LocalTimestamp2 { ts: u8 },
    GlobalTimestamp1,
    GlobalTimestamp2,
    Extension { c: bool, d: u8, s: bool },
    Instrumentation { a: u8, ss: u8 },
    Hardware { a: u8, ss: u8 },
}

/// How far the packet that is being read has come.
#[derive(Copy, Clone, Debug, PartialEq, Eq, Structural)]
pub enum ITMPacketState {
    AwaitingHeader,
    AwaitingPayload,
    Complete,
}

impl ITMHeader {
    /// The fields of the header fit the bits that the header byte has for
    /// them.
    pub open spec fn encodable(self) -> bool {
        match self {
            ITMHeader::LocalTimestamp1 { tc } => tc <= 0b11,
            ITMHeader::LocalTimestamp2 { ts } => ts != 0 && ts < 0b111,
            ITMHeader::Instrumentation { a, ss } => ss != 0 && (a >> 5) == 0,
            ITMHeader::Hardware { a, ss } => ss != 0 && (a >> 5) == 0,
            _ => true,
        }
    }

    /// The header is one that a header byte can stand for: its fields are
    /// within the ranges that the packet format gives them.
    pub open spec fn canonical(self) -> bool {
        match self {
            ITMHeader::LocalTimestamp1 { tc } => tc <= 3,
            ITMHeader::LocalTimestamp2 { ts } => 1 <= ts <= 6,
            ITMHeader::Extension { c, d, s } => d <= 7,
            ITMHeader::Instrumentation { a, ss } => a < 32 && 1 <= ss <= 3,
            ITMHeader::Hardware { a, ss } => a < 32 && 1 <= ss <= 3,
            _ => true,
        }
    }

    /// The place of a canonical header in the order in which `itm_hdrs`
    /// enters the headers into its table.
    pub open spec fn rank(self) -> int {
        match self {
            ITMHeader::Sync => 0,
            ITMHeader::Overflow => 1,
            ITMHeader::Instrumentation { a, ss } => 2 + 6 * a + 2 * (ss - 1),
            ITMHeader::Hardware { a, ss } => 3 + 6 * a + 2 * (ss - 1),
            ITMHeader::LocalTimestamp1 { tc } => 194 + tc,
            ITMHeader::LocalTimestamp2 { ts } => 197 + ts,
            ITMHeader::Extension { c, d, s } => 204 + 4 * d + if s {
                2int
            } else {
                0int
            } + if c {
                1int
            } else {
                0int
            },
            ITMHeader::GlobalTimestamp1 => 236,
            ITMHeader::GlobalTimestamp2 => 237,
        }
    }
}

/// The number of canonical headers.
pub open spec fn num_headers() -> int {
    238
}

/// The header byte of a header.
pub open spec fn spec_encode(hdr: ITMHeader) -> u8 {
    match hdr {
        ITMHeader::Sync => 0,
        ITMHeader::Overflow => 0b0111_0000,
        ITMHeader::LocalTimestamp1 { tc } => 0b1100_0000 | (tc << 4),
        ITMHeader::LocalTimestamp2 { ts } => 0b0000_0000 | (ts << 4),
        ITMHeader::GlobalTimestamp1 => 0b1001_0100,
        ITMHeader::GlobalTimestamp2 => 0b1011_0100,
        ITMHeader::Extension { c, d, s } => {
            let sh: u8 = if s {
                1u8 << 2
            } else {
                0
            };
            0b0000_1000 | (d & 0b111) << 4 | if c {
                1u8 << 7
            } else {
                0u8
            } | sh
        },
        ITMHeader::Instrumentation { a, ss } => 0b0000_0000 | (a << 3) | ss,
        ITMHeader::Hardware { a, ss } => 0b0000_0100 | (a << 3) | ss,
    }
}

/// The canonical header that a header byte stands for, if any.
pub open spec fn spec_decode(b: u8) -> Option<ITMHeader> {
    if b == 0 {
        Some(ITMHeader::Sync)
    } else if b == 0b0111_0000 {
        Some(ITMHeader::Overflow)
    } else if b & 0b11 != 0 {
        if b & 0b100 == 0 {
            Some(ITMHeader::Instrumentation { a: b >> 3, ss: b & 0b11 })
        } else {
            Some(ITMHeader::Hardware { a: b >> 3, ss: b & 0b11 })
        }
    } else if b & 0b1100_1111 == 0b1100_0000 {
        Some(ITMHeader::LocalTimestamp1 { tc: (b >> 4) & 0b11 })
    } else if b & 0b1000_1111 == 0 {
        Some(ITMHeader::LocalTimestamp2 { ts: b >> 4 })
    } else if b & 0b1011 == 0b1000 {
        Some(ITMHeader::Extension { c: b & 0x80 != 0, d: (b >> 4) & 0b111, s: b & 0b100 != 0 })
    } else if b == 0b1001_0100 {
        Some(ITMHeader::GlobalTimestamp1)
    } else if b == 0b1011_0100 {
        Some(ITMHeader::GlobalTimestamp2)
    } else {
        None
    }
}

/// A canonical header can be encoded.
pub proof fn lemma_canonical_encodable(hdr: ITMHeader)
    requires
        hdr.canonical(),
    ensures
        hdr.encodable(),
{
    match hdr {
        ITMHeader::Instrumentation { a, ss } => {
            assert((a >> 5) == 0) by (bit_vector)
                requires
                    a < 32,
            ;
        },
        ITMHeader::Hardware { a, ss } => {
            assert((a >> 5) == 0) by (bit_vector)
                requires
                    a < 32,
            ;
        },
        _ => {},
    }
}

/// The byte of a canonical header stands for that header.
pub proof fn lemma_decode_encode(hdr: ITMHeader)
    requires
        hdr.canonical(),
    ensures
        spec_decode(spec_encode(hdr)) == Some(hdr),
{
    match hdr {
        ITMHeader::LocalTimestamp1 { tc } => {
            let b: u8 = 0b1100_0000 | (tc << 4);
            assert(b != 0 && b != 0b0111_0000 && b & 0b11 == 0 && b & 0b1100_1111 == 0b1100_0000
                && (b >> 4) & 0b11 == tc) by (bit_vector)
                requires
                    tc <= 3,
                    b == 0b1100_0000 | (tc << 4),
            ;
        },
        ITMHeader::LocalTimestamp2 { ts } => {
            let b: u8 = 0b0000_0000 | (ts << 4);
            assert(b != 0 && b != 0b0111_0000 && b & 0b11 == 0 && b & 0b1100_1111 != 0b1100_0000
                && b & 0b1000_1111 == 0 && b >> 4 == ts) by (bit_vector)
                requires
                    1 <= ts <= 6,
                    b == 0b0000_0000 | (ts << 4),
            ;
        },
        ITMHeader::Extension { c, d, s } => {
            assert(1u8 << 2 == 4 && 1u8 << 7 == 0x80) by (bit_vector);
            let sh: u8 = if s {
                1u8 << 2
            } else {
                0
            };
            let ch: u8 = if c {
                1u8 << 7
            } else {
                0u8
            };
            let b: u8 = 0b0000_1000 | (d & 0b111) << 4 | ch | sh;
            assert(b != 0 && b != 0b0111_0000 && b & 0b11 == 0 && b & 0b1100_1111 != 0b1100_0000
                && b & 0b1000_1111 != 0 && b & 0b1011 == 0b1000 && (b >> 4) & 0b111 == d && (b
                & 0x80 != 0) == (ch != 0) && (b & 0b100 != 0) == (sh != 0)) by (bit_vector)
                requires
                    d <= 7,
                    sh == 0 || sh == 4,
                    ch == 0 || ch == 0x80,
                    b == 0b0000_1000 | (d & 0b111) << 4 | ch | sh,
            ;
        },
        ITMHeader::Instrumentation { a, ss } => {
            let b: u8 = 0b0000_0000 | (a << 3) | ss;
            assert(b != 0 && b != 0b0111_0000 && b & 0b11 == ss && b & 0b100 == 0 && b >> 3 == a)
                by (bit_vector)
                requires
                    a < 32,
                    1 <= ss <= 3,
                    b == 0b0000_0000 | (a << 3) | ss,
            ;
        },
        ITMHeader::Hardware { a, ss } => {
            let b: u8 = 0b0000_0100 | (a << 3) | ss;
            assert(b != 0 && b != 0b0111_0000 && b & 0b11 == ss && b & 0b100 != 0 && b >> 3 == a)
                by (bit_vector)
                requires
                    a < 32,
                    1 <= ss <= 3,
                    b == 0b0000_0100 | (a << 3) | ss,
            ;
        },
        ITMHeader::GlobalTimestamp1 => {
            let b: u8 = 0b1001_0100;
            assert(b & 0b11 == 0 && b & 0b1100_1111 != 0b1100_0000 && b & 0b1000_1111 != 0 && b
                & 0b1011 != 0b1000) by (bit_vector)
                requires
                    b == 0b1001_0100,
            ;
        },
        ITMHeader::GlobalTimestamp2 => {
            let b: u8 = 0b1011_0100;
            assert(b & 0b11 == 0 && b & 0b1100_1111 != 0b1100_0000 && b & 0b1000_1111 != 0 && b
                & 0b1011 != 0b1000) by (bit_vector)
                requires
                    b == 0b1011_0100,
            ;
        },
        _ => {},
    }
}

/// A byte stands for a canonical header only, and is the byte of that
/// header.
pub proof fn lemma_encode_decode(b: u8)
    ensures
        spec_decode(b) matches Some(hdr) ==> hdr.canonical() && spec_encode(hdr) == b,
{
    assert(b & 0b11 != 0 ==> (b >> 3) < 32 && 1 <= (b & 0b11) <= 3) by (bit_vector);
    assert(b & 0b11 != 0 && b & 0b100 == 0 ==> 0b0000_0000 | ((b >> 3) << 3) | (b & 0b11) == b)
        by (bit_vector);
    assert(b & 0b11 != 0 && b & 0b100 != 0 ==> 0b0000_0100 | ((b >> 3) << 3) | (b & 0b11) == b)
        by (bit_vector);
    assert(b & 0b1100_1111 == 0b1100_0000 ==> ((b >> 4) & 0b11) <= 3 && 0b1100_0000 | (((b >> 4)
        & 0b11) << 4) == b) by (bit_vector);
    assert(b & 0b1000_1111 == 0 && b != 0 && b != 0b0111_0000 ==> 1 <= (b >> 4) <= 6 && 0b0000_0000
        | ((b >> 4) << 4) == b) by (bit_vector);
    assert(b & 0b1011 == 0b1000 ==> ((b >> 4) & 0b111) <= 7 && 0b0000_1000 | (((b >> 4) & 0b111)
        & 0b111) << 4 | (b & 0x80) | (b & 0b100) == b) by (bit_vector);
    assert(b & 0x80 == 0 || b & 0x80 == 1u8 << 7) by (bit_vector);
    assert(b & 0b100 == 0 || b & 0b100 == 1u8 << 2) by (bit_vector);
}

/// No two canonical headers have the same place in the table's order.
pub proof fn lemma_rank_injective(x: ITMHeader, y: ITMHeader)
    requires
        x.canonical(),
        y.canonical(),
        x.rank() == y.rank(),
    ensures
        x == y,
{
}

/// No two canonical headers share a header byte.
pub proof fn lemma_encode_injective(x: ITMHeader, y: ITMHeader)
    requires
        x.canonical(),
        y.canonical(),
        spec_encode(x) == spec_encode(y),
    ensures
        x == y,
{
    lemma_decode_encode(x);
    lemma_decode_encode(y);
}

/// The table of headers once the first `n` canonical headers are entered:
/// at each byte the header that it stands for, if that header is among
/// them.
pub open spec fn table_after(n: int) -> Seq<Option<ITMHeader>> {
    Seq::new(
        256,
        |b: int|
            match spec_decode(b as u8) {
                Some(hdr) if hdr.rank() < n => Some(hdr),
                _ => None,
            },
    )
}

/// Entering the next canonical header fills an empty place of the table.
pub proof fn lemma_table_step(n: int, hdr: ITMHeader)
    requires
        hdr.canonical(),
        hdr.rank() == n,
    ensures
        hdr.encodable(),
        table_after(n)[spec_encode(hdr) as int] is None,
        table_after(n).update(spec_encode(hdr) as int, Some(hdr)) == table_after(n + 1),
{
    lemma_canonical_encodable(hdr);
    lemma_decode_encode(hdr);
    let e = spec_encode(hdr) as int;
    assert forall|b: int| 0 <= b < 256 implies table_after(n).update(e, Some(hdr))[b]
        == table_after(n + 1)[b] by {
        lemma_encode_decode(b as u8);
        if b != e {
            if let Some(h) = spec_decode(b as u8) {
                if h.rank() == n {
                    lemma_rank_injective(h, hdr);
                }
            }
        }
    }
    assert(table_after(n).update(e, Some(hdr)) =~= table_after(n + 1));
}

/// The header byte of a header.
pub fn encode(hdr: ITMHeader) -> (r: u8)
    requires
        hdr.encodable(),
    ensures
        r == spec_encode(hdr),
{
    match hdr {
        ITMHeader::Sync => 0,
        ITMHeader::Overflow => 0b0111_0000,
        ITMHeader::LocalTimestamp1 { tc } => { 0b1100_0000 | (tc << 4) },
        ITMHeader::LocalTimestamp2 { ts } => { 0b0000_0000 | (ts << 4) },
        ITMHeader::GlobalTimestamp1 => 0b1001_0100,
        ITMHeader::GlobalTimestamp2 => 0b1011_0100,
        ITMHeader::Extension { c, d, s } => {
            let sh: u8 = if s {
                1u8 << 2
            } else {
                0
            };
            0b0000_1000 | (d & 0b111) << 4 | if c {
                1u8 << 7
            } else {
                0u8
            } | sh
        },
        ITMHeader::Instrumentation { a, ss } => { 0b0000_0000 | (a << 3) | ss },
        ITMHeader::Hardware { a, ss } => { 0b0000_0100 | (a << 3) | ss },
    }
}

/// Enters a header into a table at its header byte.  The place must be
/// empty: two headers for one byte would make the table ambiguous.
pub fn set(table: &mut Vec<Option<ITMHeader>>, hdr: ITMHeader)
    requires
        hdr.encodable(),
        spec_encode(hdr) < old(table)@.len(),
        old(table)@[spec_encode(hdr) as int] is None,
    ensures
        final(table)@ == old(table)@.update(spec_encode(hdr) as int, Some(hdr)),
{
    let val: usize = encode(hdr) as usize;
    table[val] = Some(hdr);
}

/// The table of all headers: at each of the 256 header bytes the header that
/// it stands for, or `None` where it stands for none.
pub fn itm_hdrs() -> (hdr: Vec<Option<ITMHeader>>)
    ensures
        hdr@.len() == 256,
        forall|b: u8| #[trigger] hdr@[b as int] == spec_decode(b),
        hdr@ == table_after(num_headers()),
{
    let mut hdr: Vec<Option<ITMHeader>> = Vec::new();
    let mut n: usize = 0;
    while n < 256
        invariant
            n <= 256,
            hdr@.len() == n,
            forall|i: int| 0 <= i < n ==> hdr@[i] is None,
        decreases 256 - n,
    {
        hdr.push(None);
        n += 1;
    }
    assert(hdr@ =~= table_after(0)) by {
        assert forall|b: int| 0 <= b < 256 implies table_after(0)[b] is None by {
            lemma_encode_decode(b as u8);
        }
    }
    let bools = [false, true];

    proof {
        lemma_table_step(0, ITMHeader::Sync);
    }
    set(&mut hdr, ITMHeader::Sync);
    proof {
        lemma_table_step(1, ITMHeader::Overflow);
    }
    set(&mut hdr, ITMHeader::Overflow);

    let mut a: u8 = 0;
    while a < 32
        invariant
            a <= 32,
            hdr@ == table_after(2 + 6 * a),
        decreases 32 - a,
    {
        let mut ss: u8 = 1;
        while ss <= 0b11
            invariant
                a < 32,
                1 <= ss <= 4,
                hdr@ == table_after(2 + 6 * a + 2 * (ss - 1)),
            decreases 4 - ss,
        {
            proof {
                lemma_table_step(2 + 6 * a + 2 * (ss - 1), ITMHeader::Instrumentation { a, ss });
            }
            set(&mut hdr, ITMHeader::Instrumentation { a: a, ss: ss });
            proof {
                lemma_table_step(3 + 6 * a + 2 * (ss - 1), ITMHeader::Hardware { a, ss });
            }
            set(&mut hdr, ITMHeader::Hardware { a: a, ss: ss });
            ss += 1;
        }
        a += 1;
    }

    let mut i: u8 = 0;
    while i <= 0b11
        invariant
            i <= 4,
            hdr@ == table_after(194 + i),
        decreases 4 - i,
    {
        proof {
            lemma_table_step(194 + i, ITMHeader::LocalTimestamp1 { tc: i });
        }
        set(&mut hdr, ITMHeader::LocalTimestamp1 { tc: i });
        i += 1;
    }

    let mut i: u8 = 1;
    while i < 0b111
        invariant
            1 <= i <= 7,
            hdr@ == table_after(197 + i),
        decreases 7 - i,
    {
        proof {
            lemma_table_step(197 + i, ITMHeader::LocalTimestamp2 { ts: i });
        }
        set(&mut hdr, ITMHeader::LocalTimestamp2 { ts: i });
        i += 1;
    }

    let mut i: u8 = 0;
    while i <= 0b111
        invariant
            i <= 8,
            bools@ == seq![false, true],
            hdr@ == table_after(204 + 4 * i),
        decreases 8 - i,
    {
        let mut si: usize = 0;
        while si < 2
            invariant
                i <= 7,
                si <= 2,
                bools@ == seq![false, true],
                hdr@ == table_after(204 + 4 * i + 2 * si),
            decreases 2 - si,
        {
            let s = bools[si];
            let mut ci: usize = 0;
            while ci < 2
                invariant
                    i <= 7,
                    si < 2,
                    ci <= 2,
                    bools@ == seq![false, true],
                    s == bools@[si as int],
                    hdr@ == table_after(204 + 4 * i + 2 * si + ci),
                decreases 2 - ci,
            {
                let c = bools[ci];
                proof {
                    lemma_table_step(
                        204 + 4 * i + 2 * si + ci,
                        ITMHeader::Extension { c, d: i, s },
                    );
                }
                set(&mut hdr, ITMHeader::Extension { c: c, d: i, s: s });
                ci += 1;
            }
            si += 1;
        }
        i += 1;
    }

    proof {
        lemma_table_step(236, ITMHeader::GlobalTimestamp1);
    }
    set(&mut hdr, ITMHeader::GlobalTimestamp1);
    proof {
        lemma_table_step(237, ITMHeader::GlobalTimestamp2);
    }
    set(&mut hdr, ITMHeader::GlobalTimestamp2);

    proof {
        assert forall|b: u8| #[trigger] hdr@[b as int] == spec_decode(b) by {
            lemma_encode_decode(b);
        }
    }
    hdr
}

/// The continuation bit of a payload byte.
pub open spec fn high_bit(b: u8) -> bool {
    b & 0b1000_0000 != 0
}

/// The number of bytes that a payload of up to four bytes is taken to have:
/// one more than the index of the first of its first three bytes whose high
/// bit is set; where none of them has it set, one more than the number of
/// bytes that are there, and four at most.
pub open spec fn compressed(payload: Seq<u8>) -> int {
    if payload.len() == 0 || high_bit(payload[0]) {
        1
    } else if payload.len() == 1 || high_bit(payload[1]) {
        2
    } else if payload.len() == 2 || high_bit(payload[2]) {
        3
    } else {
        4
    }
}

/// The state of a packet that needs `size` bytes of payload and has
/// `payload`.
pub open spec fn expect(payload: Seq<u8>, size: int) -> ITMPacketState {
    if payload.len() < size {
        ITMPacketState::AwaitingPayload
    } else {
        ITMPacketState::Complete
    }
}

/// The size of a source packet's payload, which the two low bits of its
/// header give.
pub open spec fn source_size(ss: u8) -> int {
    if ss == 0b01 {
        1
    } else if ss == 0b10 {
        2
    } else {
        4
    }
}

/// The state of a packet with the given header once `payload` has come in.
pub open spec fn spec_packet_state(hdr: ITMHeader, payload: Seq<u8>) -> ITMPacketState {
    match hdr {
        ITMHeader::Sync => expect(payload, 5),
        ITMHeader::Overflow => ITMPacketState::Complete,
        ITMHeader::LocalTimestamp1 { .. } => expect(payload, compressed(payload)),
        ITMHeader::LocalTimestamp2 { .. } => ITMPacketState::Complete,
        ITMHeader::GlobalTimestamp1 => expect(payload, compressed(payload)),
        ITMHeader::GlobalTimestamp2 => expect(payload, 4),
        ITMHeader::Extension { .. } => expect(payload, compressed(payload)),
        ITMHeader::Instrumentation { a: _, ss } => expect(payload, source_size(ss)),
        ITMHeader::Hardware { a: _, ss } => expect(payload, source_size(ss)),
    }
}

/// The header of a source packet names a payload size.
pub open spec fn has_size(hdr: ITMHeader) -> bool {
    match hdr {
        ITMHeader::Instrumentation { a: _, ss } => 1 <= ss <= 3,
        ITMHeader::Hardware { a: _, ss } => 1 <= ss <= 3,
        _ => true,
    }
}

fn expect_size(payload: &Vec<u8>, size: u8) -> (r: ITMPacketState)
    ensures
        r == expect(payload@, size as int),
{
    if payload.len() < size as usize {
        ITMPacketState::AwaitingPayload
    } else {
        ITMPacketState::Complete
    }
}

fn compressed_size(payload: &Vec<u8>, max: u8) -> (r: u8)
    requires
        max == 4,
    ensures
        r == compressed(payload@),
{
    let mut ndx: u8 = 0;
    while (ndx as usize) < payload.len()
        invariant
            max == 4,
            ndx <= 3,
            ndx <= payload@.len(),
            forall|j: int| 0 <= j < ndx ==> !high_bit(#[trigger] payload@[j]),
        decreases payload@.len() - ndx,
    {
        if ndx == max - 1 || (payload[ndx as usize] & 0b1000_0000) != 0 {
            return ndx + 1;
        }
        ndx += 1;
    }
    ndx + 1
}

/// The state of a packet with the given header once `payload` has come in:
/// complete, or in want of more payload.
pub fn itm_packet_state(hdr: ITMHeader, payload: &Vec<u8>) -> (r: ITMPacketState)
    requires
        has_size(hdr),
    ensures
        r == spec_packet_state(hdr, payload@),
        r != ITMPacketState::AwaitingHeader,
{
    match hdr {
        ITMHeader::Sync => { expect_size(payload, 5) },
        ITMHeader::Overflow => { ITMPacketState::Complete },
        ITMHeader::LocalTimestamp1 { .. } => { expect_size(payload, compressed_size(payload, 4)) },
        ITMHeader::LocalTimestamp2 { .. } => { ITMPacketState::Complete },
        ITMHeader::GlobalTimestamp1 => { expect_size(payload, compressed_size(payload, 4)) },
        ITMHeader::GlobalTimestamp2 => { expect_size(payload, 4) },
        ITMHeader::Extension { .. } => { expect_size(payload, compressed_size(payload, 4)) },
        ITMHeader::Instrumentation { a: _, ss } => {
            expect_size(
                payload,
                if ss == 0b01 {
                    1
                } else if ss == 0b10 {
                    2
                } else {
                    4
                },
            )
        },
        ITMHeader::Hardware { a: _, ss } => {
            expect_size(
                payload,
                if ss == 0b01 {
                    1
                } else if ss == 0b10 {
                    2
                } else {
                    4
                },
            )
        },
    }
}

/// The payload was decoded from `bytes` under the header `hdr`: that of an
/// instrumentation packet is its port and its bytes; no other kind is
/// decoded.
pub open spec fn is_payload_of(payload: ITMPayload, hdr: ITMHeader, bytes: Seq<u8>) -> bool {
    match hdr {
        ITMHeader::Instrumentation { a, .. } => payload matches ITMPayload::Instrumentation {
            port,
            payload: p,
        } && port == a && p@ == bytes,
        _ => payload is Empty,
    }
}

/// Decodes the payload of a complete packet.
pub fn itm_payload_decode(hdr: ITMHeader, payload: &Vec<u8>) -> (r: ITMPayload)
    ensures
        is_payload_of(r, hdr, payload@),
{
    match hdr {
        ITMHeader::Instrumentation { a, .. } => {
            ITMPayload::Instrumentation { port: a as u32, payload: payload.clone() }
        },
        _ => { ITMPayload::Empty },
    }
}

/// Whether the stream of packets has been found in the stream of bytes.
#[derive(Copy, Clone, Debug, PartialEq, Eq, Structural)]
pub enum IngestState {
    /// Looking for a synchronization packet: five zero bytes at least, and
    /// then the byte `0x80`.
    SyncSearching,
    /// Reading packets.
    Ingesting,
}

/// What a byte of the stream brought about.
#[derive(Debug, PartialEq, Eq)]
pub enum IngestEvent {
    /// Nothing to tell.
    Nothing,
    /// The synchronization packet was found; packets follow.
    Synchronized,
    /// A packet is complete.
    Packet { header: ITMHeader, payload: ITMPayload },
    /// The byte stands where a header is due, and is no header byte.  The
    /// byte was dropped.
    Unrecognized { datum: u8 },
}

/// What a byte of the stream brought about, with the payload of a packet as
/// its bytes.
pub enum IngestEventView {
    Nothing,
    Synchronized,
    Packet { header: ITMHeader, bytes: Seq<u8> },
    Unrecognized { datum: u8 },
}

/// The event is the one that the view describes.
pub open spec fn is_event(event: IngestEvent, view: IngestEventView) -> bool {
    match (event, view) {
        (IngestEvent::Nothing, IngestEventView::Nothing) => true,
        (IngestEvent::Synchronized, IngestEventView::Synchronized) => true,
        (
            IngestEvent::Packet { header, payload },
            IngestEventView::Packet { header: h, bytes },
        ) => header == h && is_payload_of(payload, h, bytes),
        (IngestEvent::Unrecognized { datum }, IngestEventView::Unrecognized { datum: d }) => datum
            == d,
        _ => false,
    }
}

/// The state machine that finds the packets in a stream of bytes.
#[derive(Debug)]
pub struct ITMIngest {
    hdrs: Vec<Option<ITMHeader>>,
    state: IngestState,
    pstate: ITMPacketState,
    hdr: ITMHeader,
    payload: Vec<u8>,
    runlen: usize,
}

/// The state machine as a mathematical value.
pub struct ITMIngestView {
    pub state: IngestState,
    /// How far the packet that is being read has come.
    pub pstate: ITMPacketState,
    /// The header of the packet that is being read.
    pub hdr: ITMHeader,
    /// The payload of the packet that is being read, as far as it has come.
    pub payload: Seq<u8>,
    /// The number of zero bytes in a row that were seen while looking for
    /// the synchronization packet; it stops counting at `usize::MAX`.
    pub runlen: usize,
}

impl ITMIngestView {
    /// A packet is complete as soon as it is read, so between two bytes none
    /// is; and a packet in want of payload has a canonical header.
    pub open spec fn wf(self) -> bool {
        &&& self.pstate != ITMPacketState::Complete
        &&& self.pstate == ITMPacketState::AwaitingPayload ==> self.hdr.canonical()
    }

    /// What follows once header or payload of the packet has grown: a
    /// complete packet is handed out and the next header awaited; otherwise
    /// more payload is awaited.
    pub open spec fn advance(self) -> (ITMIngestView, IngestEventView) {
        if spec_packet_state(self.hdr, self.payload) == ITMPacketState::Complete {
            (
                ITMIngestView { pstate: ITMPacketState::AwaitingHeader, ..self },
                IngestEventView::Packet { header: self.hdr, bytes: self.payload },
            )
        } else {
            (
                ITMIngestView { pstate: spec_packet_state(self.hdr, self.payload), ..self },
                IngestEventView::Nothing,
            )
        }
    }

    /// The step of the machine: the state after the byte `datum`, and what
    /// the byte brought about.
    ///
    /// While the synchronization packet is looked for, zero bytes are
    /// counted, the byte `0x80` after five of them or more starts the
    /// reading of packets, and any other byte but `0x80` starts the count
    /// anew.  While packets are read, a byte is the header of a packet or
    /// the next byte of its payload.
    pub open spec fn step(self, datum: u8) -> (ITMIngestView, IngestEventView) {
        match self.state {
            IngestState::SyncSearching => if datum == 0 {
                (
                    ITMIngestView {
                        runlen: if self.runlen < usize::MAX {
                            (self.runlen + 1) as usize
                        } else {
                            self.runlen
                        },
                        ..self
                    },
                    IngestEventView::Nothing,
                )
            } else if datum == 0x80 {
                if self.runlen >= 5 {
                    (
                        ITMIngestView { state: IngestState::Ingesting, ..self },
                        IngestEventView::Synchronized,
                    )
                } else {
                    (self, IngestEventView::Nothing)
                }
            } else {
                (ITMIngestView { runlen: 0, ..self }, IngestEventView::Nothing)
            },
            IngestState::Ingesting => match self.pstate {
                ITMPacketState::AwaitingHeader => match spec_decode(datum) {
                    None => (self, IngestEventView::Unrecognized { datum }),
                    Some(hdr) => (ITMIngestView { hdr, payload: Seq::empty(), ..self }).advance(),
                },
                ITMPacketState::AwaitingPayload => (ITMIngestView {
                    payload: self.payload.push(datum),
                    ..self
                }).advance(),
                ITMPacketState::Complete => (self, IngestEventView::Nothing),
            },
        }
    }
}

impl View for ITMIngest {
    type V = ITMIngestView;

    closed spec fn view(&self) -> ITMIngestView {
        ITMIngestView {
            state: self.state,
            pstate: self.pstate,
            hdr: self.hdr,
            payload: self.payload@,
            runlen: self.runlen,
        }
    }
}

impl ITMIngest {
    /// The machine holds the table of all headers, and its state is well
    /// formed.
    pub closed spec fn wf(&self) -> bool {
        &&& self.hdrs@ == table_after(num_headers())
        &&& self@.wf()
    }

    /// A machine that looks for the synchronization packet.
    pub fn new() -> (r: ITMIngest)
        ensures
            r.wf(),
            r@ == (ITMIngestView {
                state: IngestState::SyncSearching,
                pstate: ITMPacketState::AwaitingHeader,
                hdr: ITMHeader::Sync,
                payload: Seq::empty(),
                runlen: 0,
            }),
    {
        ITMIngest {
            hdrs: itm_hdrs(),
            state: IngestState::SyncSearching,
            pstate: ITMPacketState::AwaitingHeader,
            hdr: ITMHeader::Sync,
            payload: Vec::new(),
            runlen: 0,
        }
    }

    /// Whether packets are being read.
    pub fn state(&self) -> (r: IngestState)
        ensures
            r == self@.state,
    {
        self.state
    }

    fn advance(&mut self) -> (event: IngestEvent)
        requires
            old(self).hdrs@ == table_after(num_headers()),
            old(self)@.hdr.canonical(),
        ensures
            final(self).wf(),
            is_event(event, old(self)@.advance().1),
            final(self)@ == old(self)@.advance().0,
    {
        self.pstate = itm_packet_state(self.hdr, &self.payload);
        match self.pstate {
            ITMPacketState::Complete => {
                self.pstate = ITMPacketState::AwaitingHeader;
                IngestEvent::Packet {
                    header: self.hdr,
                    payload: itm_payload_decode(self.hdr, &self.payload),
                }
            },
            _ => IngestEvent::Nothing,
        }
    }

    /// Takes the next byte of the stream.
    pub fn step(&mut self, datum: u8) -> (event: IngestEvent)
        requires
            old(self).wf(),
        ensures
            final(self).wf(),
            is_event(event, old(self)@.step(datum).1),
            final(self)@ == old(self)@.step(datum).0,
    {
        match self.state {
            IngestState::SyncSearching => {
                if datum == 0 {
                    if self.runlen < usize::MAX {
                        self.runlen += 1;
                    }
                } else if datum == 0x80 {
                    if self.runlen >= 5 {
                        self.state = IngestState::Ingesting;
                        return IngestEvent::Synchronized;
                    }
                } else {
                    self.runlen = 0;
                }
                IngestEvent::Nothing
            },
            IngestState::Ingesting => {
                match self.pstate {
                    ITMPacketState::AwaitingHeader => {
                        proof {
                            lemma_encode_decode(datum);
                        }
                        match self.hdrs[datum as usize] {
                            Some(hdr) => {
                                self.hdr = hdr;
                                self.payload.clear();
                            },
                            None => {
                                return IngestEvent::Unrecognized { datum };
                            },
                        }
                    },
                    ITMPacketState::AwaitingPayload => {
                        self.payload.push(datum);
                    },
                    ITMPacketState::Complete => {
                        return IngestEvent::Nothing;
                    },
                }
                self.advance()
            },
        }
    }
}

/// A write of a 32-bit word to a register of the debug unit.
#[derive(Copy, Clone, Debug, PartialEq, Eq, Structural)]
pub struct RegisterWrite {
    pub address: u32,
    pub value: u32,
}

/// The ITM lock access register.
#[allow(non_camel_case_types)]
#[derive(Copy, Clone, Debug, PartialEq, Eq, Structural)]
pub struct ITM_LAR(pub u32);

/// The address of the ITM lock access register.
pub const ITM_LAR_ADDRESS: u32 = 0xe000_0fb0;

/// The key that unlocks the ITM registers.
pub const ITM_UNLOCK_KEY: u32 = 0xc5ac_ce55;

/// The value that locks the ITM registers again.
pub const ITM_LOCK_KEY: u32 = 0x01de_c0de;

impl ITM_LAR {
    /// The write that unlocks the ITM registers.
    pub fn unlock() -> (r: RegisterWrite)
        ensures
            r == (RegisterWrite { address: ITM_LAR_ADDRESS, value: ITM_UNLOCK_KEY }),
    {
        RegisterWrite { address: ITM_LAR_ADDRESS, value: ITM_UNLOCK_KEY }
    }

    /// The write that locks the ITM registers.
    pub fn lock() -> (r: RegisterWrite)
        ensures
            r == (RegisterWrite { address: ITM_LAR_ADDRESS, value: ITM_LOCK_KEY }),
    {
        RegisterWrite { address: ITM_LAR_ADDRESS, value: ITM_LOCK_KEY }
    }

    /// Bit 1 of the register.
    pub fn key(&self) -> (r: bool)
        ensures
            r == (self.0 & 0b10 != 0),
    {
        self.0 & 0b10 != 0
    }
}

} // verus!
