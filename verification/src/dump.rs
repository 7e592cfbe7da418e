//! Dumping the memory of a device: sequential reads from address zero on.

use vstd::prelude::*;
use crate::ops::{
    lemma_indirect_calls, lemma_num_calls_add, lemma_num_calls_push, num_calls, result_view,
    results_view, set_address, CallResult, Dma, Op,
};

verus! {

/// The number of bytes that one read brings.
pub const DUMP_BLOCK_SIZE: u8 = 128;

/// The number of reads in one program.
pub const DUMP_BLOCKS: usize = 8;

/// The number of bytes of device memory.
pub const DUMP_MEMORY_SIZE: usize = 256 * 1024;

/// The number of programs that cover the memory.
pub const DUMP_LAPS: usize = 256;

/// The number of laps is the memory size over what one lap reads.
pub proof fn lemma_dump_laps()
    ensures
        DUMP_LAPS * (DUMP_BLOCK_SIZE as int * DUMP_BLOCKS) == DUMP_MEMORY_SIZE,
{
}

/// The reads of one lap: the command and the block size are pushed once,
/// and each call reads the next block.
pub open spec fn sequential_reads(dma: Dma) -> Seq<Op> {
    seq![Op::Push(dma.dmaseq), Op::Push(DUMP_BLOCK_SIZE)] + Seq::new(
        DUMP_BLOCKS as nat,
        |i: int| Op::Call(dma.i2c.read),
    ) + seq![Op::Done]
}

/// The program of lap `lap`.  The first lap sets the address to zero before
/// its reads; every later lap goes on where the one before ended.
pub open spec fn spec_dump_ops(base: Seq<Op>, dma: Dma, lap: int) -> Seq<Op> {
    if lap == 0 {
        base + set_address(dma, seq![0u8, 0u8]) + sequential_reads(dma)
    } else {
        base + sequential_reads(dma)
    }
}

/// The number of results of the program of lap `lap`.
pub open spec fn dump_results(lap: int) -> int {
    if lap == 0 {
        DUMP_BLOCKS + 1
    } else {
        DUMP_BLOCKS as int
    }
}

/// Builds the program of lap `lap`.
pub fn dump_ops(base: &Vec<Op>, dma: &Dma, lap: usize) -> (ops: Vec<Op>)
    ensures
        ops@ == spec_dump_ops(base@, *dma, lap as int),
{
    let mut ops = base.clone();
    if lap == 0 {
        ops.push(Op::Push(dma.dmaaddr));
        ops.push(Op::Push(0));
        ops.push(Op::Push(0));
        ops.push(Op::Push(2));
        ops.push(Op::Call(dma.i2c.write));
        ops.push(Op::DropN(4));
        assert(ops@ =~= base@ + set_address(*dma, seq![0u8, 0u8]));
    }
    let ghost head = ops@;
    ops.push(Op::Push(dma.dmaseq));
    ops.push(Op::Push(DUMP_BLOCK_SIZE));
    let mut i: usize = 0;
    while i < DUMP_BLOCKS
        invariant
            i <= DUMP_BLOCKS,
            ops@ == head + seq![Op::Push(dma.dmaseq), Op::Push(DUMP_BLOCK_SIZE)] + Seq::new(
                i as nat,
                |k: int| Op::Call(dma.i2c.read),
            ),
        decreases DUMP_BLOCKS - i,
    {
        ops.push(Op::Call(dma.i2c.read));
        assert(ops@ =~= head + seq![Op::Push(dma.dmaseq), Op::Push(DUMP_BLOCK_SIZE)] + Seq::new(
            (i + 1) as nat,
            |k: int| Op::Call(dma.i2c.read),
        ));
        i += 1;
    }
    ops.push(Op::Done);
    assert(ops@ =~= head + sequential_reads(*dma));
    ops
}

/// Why a dump stops.
#[derive(Copy, Clone, Debug, PartialEq, Eq, Structural)]
pub enum DumpError {
    /// A program gave another number of results than it has calls.
    ResultCount { expected: usize, found: usize },
    /// The device refused to have its address set.
    SetAddress { code: u32 },
    /// The device refused the read whose result stands at `index`.
    Read { index: usize, code: u32 },
}

/// What the results of one lap hold: the results from `start` up to `end`
/// are blocks of memory, in order; and `error`, if there is one, is why the
/// dump stops after them.
#[derive(Copy, Clone, Debug, PartialEq, Eq, Structural)]
pub struct DumpLap {
    pub start: usize,
    pub end: usize,
    pub error: Option<DumpError>,
}

/// Where the run of good results that starts at `from` ends: at the first
/// result from there on that is an error, or after the last result.
pub open spec fn good_until(results: Seq<Result<Seq<u8>, u32>>, from: int) -> int
    decreases results.len() - from,
{
    if from < 0 || from >= results.len() || results[from] is Err {
        from
    } else {
        good_until(results, from + 1)
    }
}

/// What the results of lap `lap` hold.  Every call must have its result.
/// In the first lap the first result is that of setting the address, which
/// must have gone through; the blocks follow it.  The blocks end at the
/// first read that the device refused.
pub open spec fn spec_dump_lap(lap: int, results: Seq<Result<Seq<u8>, u32>>) -> DumpLap {
    let start: int = if lap == 0 {
        1
    } else {
        0
    };
    let end = good_until(results, start);
    if results.len() != dump_results(lap) {
        DumpLap {
            start: 0,
            end: 0,
            error: Some(
                DumpError::ResultCount {
                    expected: dump_results(lap) as usize,
                    found: results.len() as usize,
                },
            ),
        }
    } else if lap == 0 && results[0] is Err {
        DumpLap { start: 0, end: 0, error: Some(DumpError::SetAddress { code: results[0]->Err_0 }) }
    } else if end < results.len() {
        DumpLap {
            start: start as usize,
            end: end as usize,
            error: Some(DumpError::Read { index: end as usize, code: results[end]->Err_0 }),
        }
    } else {
        DumpLap { start: start as usize, end: end as usize, error: None }
    }
}

/// The results of a run of good results are good, and the run ends within
/// the results.
pub proof fn lemma_good_until(results: Seq<Result<Seq<u8>, u32>>, from: int)
    requires
        0 <= from <= results.len(),
    ensures
        from <= good_until(results, from) <= results.len(),
        forall|j: int| from <= j < good_until(results, from) ==> #[trigger] results[j] is Ok,
        good_until(results, from) < results.len() ==> results[good_until(results, from)] is Err,
    decreases results.len() - from,
{
    if from < results.len() && results[from] is Ok {
        lemma_good_until(results, from + 1);
    }
}

/// Reads the results of lap `lap`.
pub fn dump_lap(lap: usize, results: &Vec<CallResult>) -> (r: DumpLap)
    ensures
        r == spec_dump_lap(lap as int, results_view(results@)),
        r.start <= r.end <= results@.len(),
        forall|j: int| r.start <= j < r.end ==> #[trigger] results@[j] is Ok,
{
    let expected: usize = if lap == 0 {
        DUMP_BLOCKS + 1
    } else {
        DUMP_BLOCKS
    };
    if results.len() != expected {
        return DumpLap {
            start: 0,
            end: 0,
            error: Some(DumpError::ResultCount { expected, found: results.len() }),
        };
    }
    let ghost rs = results_view(results@);
    let start: usize = if lap == 0 {
        assert(rs[0] == result_view(results@[0]));
        match &results[0] {
            Err(err) => {
                return DumpLap {
                    start: 0,
                    end: 0,
                    error: Some(DumpError::SetAddress { code: *err }),
                };
            },
            Ok(_) => 1,
        }
    } else {
        0
    };
    let mut ndx: usize = start;
    let mut error: Option<DumpError> = None;
    while ndx < results.len() && error.is_none()
        invariant
            start <= ndx <= results@.len(),
            rs == results_view(results@),
            forall|j: int| start <= j < ndx ==> #[trigger] results@[j] is Ok,
            match error {
                None => good_until(rs, start as int) == good_until(rs, ndx as int),
                Some(e) => good_until(rs, start as int) == ndx && ndx < rs.len() && e
                    == (DumpError::Read { index: ndx, code: rs[ndx as int]->Err_0 }),
            },
        decreases
                results@.len() - ndx,
                if error is None {
                    1int
                } else {
                    0int
                },
    {
        assert(rs[ndx as int] == result_view(results@[ndx as int]));
        match &results[ndx] {
            Err(err) => {
                error = Some(DumpError::Read { index: ndx, code: *err });
            },
            Ok(_) => {
                ndx += 1;
            },
        }
    }
    DumpLap { start, end: ndx, error }
}

/// A run of calls is as many calls as it is long.
pub proof fn lemma_repeated_calls(read: u8, n: nat)
    ensures
        num_calls(Seq::new(n, |i: int| Op::Call(read))) == n,
    decreases n,
{
    if n > 0 {
        lemma_repeated_calls(read, (n - 1) as nat);
        lemma_num_calls_push(Seq::new((n - 1) as nat, |i: int| Op::Call(read)), Op::Call(read));
        assert(Seq::new((n - 1) as nat, |i: int| Op::Call(read)).push(Op::Call(read)) =~= Seq::new(
            n,
            |i: int| Op::Call(read),
        ));
    }
}

/// The program of a lap has as many calls more than its base as `dump_lap`
/// asks results of it.
pub proof fn lemma_dump_calls(base: Seq<Op>, dma: Dma, lap: int)
    ensures
        num_calls(spec_dump_ops(base, dma, lap)) == num_calls(base) + dump_results(lap),
{
    let e = Seq::<Op>::empty();
    let head = e.push(Op::Push(dma.dmaseq)).push(Op::Push(DUMP_BLOCK_SIZE));
    lemma_num_calls_push(e, Op::Push(dma.dmaseq));
    lemma_num_calls_push(e.push(Op::Push(dma.dmaseq)), Op::Push(DUMP_BLOCK_SIZE));
    assert(head =~= seq![Op::Push(dma.dmaseq), Op::Push(DUMP_BLOCK_SIZE)]);
    let reads = Seq::new(DUMP_BLOCKS as nat, |i: int| Op::Call(dma.i2c.read));
    lemma_repeated_calls(dma.i2c.read, DUMP_BLOCKS as nat);
    lemma_num_calls_add(head, reads);
    lemma_num_calls_push(head + reads, Op::Done);
    assert((head + reads).push(Op::Done) =~= sequential_reads(dma));
    let zero = seq![0u8, 0u8];
    lemma_indirect_calls(dma, zero, 0);
    if lap == 0 {
        lemma_num_calls_add(base, set_address(dma, zero));
        lemma_num_calls_add(base + set_address(dma, zero), sequential_reads(dma));
    } else {
        lemma_num_calls_add(base, sequential_reads(dma));
    }
}

} // verus!
