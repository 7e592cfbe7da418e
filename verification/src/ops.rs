//! Programs for the remote command executor, and the indirect addressing
//! scheme that reaches device memory which no PMBus command names.

use vstd::prelude::*;
use vstd::hash_map::StringHashMap;

verus! {

/// One operation of a program for the remote command executor.
#[derive(Copy, Clone, Debug, PartialEq, Eq, Structural)]
pub enum Op {
    /// Pushes a byte.
    Push(u8),
    /// Pushes an absent value.
    PushNone,
    /// Calls the function with the given number on what has been pushed.
    Call(u8),
    /// Drops the given number of pushed values.
    DropN(u8),
    /// Ends the program.
    Done,
}

/// The numbers of the two I2C functions of the executor.
#[derive(Copy, Clone, Debug, PartialEq, Eq, Structural)]
pub struct I2cFunctions {
    pub read: u8,
    pub write: u8,
}

/// What the executor returns for one call: the bytes read, or the error code
/// of the device.
pub type CallResult = Result<Vec<u8>, u32>;

/// The result of one call as a mathematical value.
pub open spec fn result_view(r: CallResult) -> Result<Seq<u8>, u32> {
    match r {
        Ok(bytes) => Ok(bytes@),
        Err(code) => Err(code),
    }
}

/// The results of a program as mathematical values.
pub open spec fn results_view(results: Seq<CallResult>) -> Seq<Result<Seq<u8>, u32>> {
    Seq::new(results.len(), |i: int| result_view(results[i]))
}

/// The number of calls in a program: the number of results that the
/// executor returns for it.
pub open spec fn num_calls(ops: Seq<Op>) -> nat
    decreases ops.len(),
{
    if ops.len() == 0 {
        0
    } else {
        num_calls(ops.drop_last()) + if ops.last() is Call {
            1nat
        } else {
            0nat
        }
    }
}

/// The calls of a program that is made of two parts are those of the parts.
pub proof fn lemma_num_calls_add(a: Seq<Op>, b: Seq<Op>)
    ensures
        num_calls(a + b) == num_calls(a) + num_calls(b),
    decreases b.len(),
{
    if b.len() == 0 {
        assert(a + b =~= a);
    } else {
        assert((a + b).drop_last() =~= a + b.drop_last());
        lemma_num_calls_add(a, b.drop_last());
    }
}

/// One operation more is one call more if it is a call.
pub proof fn lemma_num_calls_push(a: Seq<Op>, op: Op)
    ensures
        num_calls(a.push(op)) == num_calls(a) + if op is Call {
            1nat
        } else {
            0nat
        },
{
    assert(a.push(op).drop_last() =~= a);
}

/// The operations that every program starts with: they push the controller,
/// the port, the multiplexer and its segment (or two absent values), and the
/// address of the device.
pub open spec fn spec_base_ops(controller: u8, port: u8, mux: Option<(u8, u8)>, address: u8) -> Seq<
    Op,
> {
    match mux {
        Some((m, segment)) => seq![
            Op::Push(controller),
            Op::Push(port),
            Op::Push(m),
            Op::Push(segment),
            Op::Push(address),
        ],
        None => seq![
            Op::Push(controller),
            Op::Push(port),
            Op::PushNone,
            Op::PushNone,
            Op::Push(address),
        ],
    }
}

/// Builds the operations that every program starts with.  Without a device
/// address there is nothing to talk to, and no program.
pub fn base_ops(controller: u8, port: u8, mux: Option<(u8, u8)>, address: Option<u8>) -> (r: Option<
    Vec<Op>,
>)
    ensures
        match r {
            Some(ops) => address matches Some(a) && ops@ == spec_base_ops(
                controller,
                port,
                mux,
                a,
            ),
            None => address is None,
        },
{
    let mut base: Vec<Op> = Vec::new();
    base.push(Op::Push(controller));
    base.push(Op::Push(port));
    match mux {
        Some(m) => {
            base.push(Op::Push(m.0));
            base.push(Op::Push(m.1));
        },
        None => {
            base.push(Op::PushNone);
            base.push(Op::PushNone);
        },
    }
    let address = match address {
        Some(address) => address,
        None => {
            return None;
        },
    };
    base.push(Op::Push(address));
    assert(base@ =~= spec_base_ops(controller, port, mux, address));
    Some(base)
}

/// The kind of transfer that a PMBus command is declared with.
#[derive(Copy, Clone, Debug, PartialEq, Eq, Structural)]
pub enum Operation {
    ReadByte,
    WriteByte,
    SendByte,
    ReadWord,
    WriteWord,
    ReadWord32,
    WriteWord32,
    ReadBlock,
    WriteBlock,
    ProcessCall,
    Unknown,
    Illegal,
}

/// What the command database says of one command code.
#[derive(Debug, PartialEq, Eq)]
pub struct CommandInfo {
    pub name: String,
    pub read_op: Operation,
    pub write_op: Operation,
}

/// What a name stands for in the table: the code of the command, and the
/// kinds of its read and its write.
pub type CommandEntry = (u8, Operation, Operation);

/// The commands of a device by name: a hash map from the name of a command
/// to what it stands for.  A name that is inserted twice keeps what was
/// inserted last.
pub struct CommandTable {
    map: StringHashMap<CommandEntry>,
}

impl View for CommandTable {
    type V = Map<Seq<char>, CommandEntry>;

    closed spec fn view(&self) -> Map<Seq<char>, CommandEntry> {
        self.map@
    }
}

/// What `name` stands for when each code below `commands.len()` is inserted
/// under the name of its command, in the order of the codes: the last code
/// whose command has this name.
pub open spec fn named(commands: Seq<Option<CommandInfo>>, name: Seq<char>) -> Option<CommandEntry>
    decreases commands.len(),
{
    if commands.len() == 0 {
        None
    } else {
        match commands.last() {
            Some(info) if info.name@ == name => Some(
                ((commands.len() - 1) as u8, info.read_op, info.write_op),
            ),
            _ => named(commands.drop_last(), name),
        }
    }
}

/// The three commands of the indirect addressing scheme.
#[derive(Copy, Clone, Debug, PartialEq, Eq, Structural)]
pub enum DmaCommand {
    /// `DMAADDR` sets the address: a write of a 16-bit word.
    Address,
    /// `DMASEQ` transfers at the address and moves it on: read as a 32-bit
    /// word.
    Sequential,
    /// `DMAFIX` transfers at the address and leaves it: a write of a 32-bit
    /// word.
    Fixed,
}

impl DmaCommand {
    /// The name of the command in the database.
    pub open spec fn spec_name(self) -> Seq<char> {
        match self {
            DmaCommand::Address => "DMAADDR"@,
            DmaCommand::Sequential => "DMASEQ"@,
            DmaCommand::Fixed => "DMAFIX"@,
        }
    }

    /// The name of the command in the database.
    pub fn name(self) -> (r: &'static str)
        ensures
            r@ == self.spec_name(),
    {
        match self {
            DmaCommand::Address => "DMAADDR",
            DmaCommand::Sequential => "DMASEQ",
            DmaCommand::Fixed => "DMAFIX",
        }
    }

    /// The kind of transfer that the command must be declared with.
    pub open spec fn spec_expected(self) -> Operation {
        match self {
            DmaCommand::Address => Operation::WriteWord,
            DmaCommand::Sequential => Operation::ReadWord32,
            DmaCommand::Fixed => Operation::WriteWord32,
        }
    }

    /// The kind of transfer that the command must be declared with.
    #[verifier::when_used_as_spec(spec_expected)]
    pub fn expected(self) -> (r: Operation)
        ensures
            r == self.spec_expected(),
    {
        match self {
            DmaCommand::Address => Operation::WriteWord,
            DmaCommand::Sequential => Operation::ReadWord32,
            DmaCommand::Fixed => Operation::WriteWord32,
        }
    }

    /// The kind of transfer that an entry of the table declares for the
    /// direction in which the command is used: its read for `DMASEQ`, its
    /// write for the other two.
    pub open spec fn declared(self, entry: CommandEntry) -> Operation {
        match self {
            DmaCommand::Sequential => entry.1,
            _ => entry.2,
        }
    }
}

/// The device does not speak the indirect addressing scheme as expected: the
/// wrong driver was chosen, most likely.
#[derive(Copy, Clone, Debug, PartialEq, Eq, Structural)]
pub enum ProtocolError {
    /// The database has no command of this name.
    Missing { command: DmaCommand },
    /// The command is declared with another kind of transfer.
    Mismatch { command: DmaCommand, found: Operation },
}

/// The code of a command of the indirect addressing scheme, or why the
/// table does not give it.
pub open spec fn resolve(entry: Option<CommandEntry>, command: DmaCommand) -> Result<
    u8,
    ProtocolError,
> {
    match entry {
        None => Err(ProtocolError::Missing { command }),
        Some(e) => if command.declared(e) != command.spec_expected() {
            Err(ProtocolError::Mismatch { command, found: command.declared(e) })
        } else {
            Ok(e.0)
        },
    }
}

impl CommandTable {
    /// What `name` stands for in the table.
    pub open spec fn spec_get(&self, name: Seq<char>) -> Option<CommandEntry> {
        if self@.contains_key(name) {
            Some(self@[name])
        } else {
            None
        }
    }

    /// A table without names.
    pub fn new() -> (r: CommandTable)
        ensures
            r@ == Map::<Seq<char>, CommandEntry>::empty(),
            forall|name: Seq<char>| r.spec_get(name) is None,
    {
        CommandTable { map: StringHashMap::new() }
    }

    /// Lets `name` stand for `entry`, whatever it stood for before.
    pub fn insert(&mut self, name: String, entry: CommandEntry)
        ensures
            final(self)@ == old(self)@.insert(name@, entry),
            forall|n: Seq<char>|
                #[trigger] final(self).spec_get(n) == if n == name@ {
                    Some(entry)
                } else {
                    old(self).spec_get(n)
                },
    {
        self.map.insert(name, entry);
    }

    /// What `name` stands for in the table.
    pub fn get(&self, name: &str) -> (r: Option<CommandEntry>)
        ensures
            r == self.spec_get(name@),
    {
        match self.map.get(name) {
            Some(entry) => Some(*entry),
            None => None,
        }
    }

    /// The code of a command of the indirect addressing scheme, once the
    /// table has it with the kind of transfer that the scheme needs.
    pub fn dma_command(&self, command: DmaCommand) -> (r: Result<u8, ProtocolError>)
        ensures
            r == resolve(self.spec_get(command.spec_name()), command),
    {
        match self.get(command.name()) {
            None => Err(ProtocolError::Missing { command }),
            Some(entry) => {
                let found = match command {
                    DmaCommand::Sequential => entry.1,
                    _ => entry.2,
                };
                if found != command.expected() {
                    Err(ProtocolError::Mismatch { command, found })
                } else {
                    Ok(entry.0)
                }
            },
        }
    }
}

/// Collects the commands of a device by name.  `commands[code]` is what the
/// command database says of `code`, or `None` where the device has no such
/// command; a name that several codes share stands for the last of them.
pub fn all_commands(commands: &Vec<Option<CommandInfo>>) -> (all: CommandTable)
    requires
        commands@.len() <= 256,
    ensures
        forall|name: Seq<char>| #[trigger] all.spec_get(name) == named(commands@, name),
{
    let mut all = CommandTable::new();
    let mut i: usize = 0;
    while i < commands.len()
        invariant
            i <= commands@.len() <= 256,
            forall|name: Seq<char>|
                #[trigger] all.spec_get(name) == named(commands@.take(i as int), name),
        decreases commands@.len() - i,
    {
        proof {
            assert(commands@.take(i + 1).drop_last() =~= commands@.take(i as int));
        }
        match &commands[i] {
            Some(info) => {
                all.insert(info.name.clone(), (i as u8, info.read_op, info.write_op));
            },
            None => {},
        }
        i += 1;
    }
    assert(commands@.take(i as int) =~= commands@);
    all
}

/// The codes of the two commands that indirect reads are made of, and the
/// numbers of the I2C functions that carry them.
#[derive(Copy, Clone, Debug, PartialEq, Eq, Structural)]
pub struct Dma {
    pub dmaaddr: u8,
    pub dmaseq: u8,
    pub i2c: I2cFunctions,
}

/// The operations that set the indirect address: the command, the two bytes
/// of the address, the length 2, the write, and a drop of all four.
pub open spec fn set_address(dma: Dma, addr: Seq<u8>) -> Seq<Op> {
    seq![
        Op::Push(dma.dmaaddr),
        Op::Push(addr[0]),
        Op::Push(addr[1]),
        Op::Push(2),
        Op::Call(dma.i2c.write),
        Op::DropN(4),
    ]
}

/// The operations of an indirect read of `nbytes` bytes at `addr` (low byte
/// first): set the address, then a sequential transfer of that many bytes.
pub open spec fn indirect_read(dma: Dma, addr: Seq<u8>, nbytes: u8) -> Seq<Op> {
    set_address(dma, addr) + seq![
        Op::Push(dma.dmaseq),
        Op::Push(nbytes),
        Op::Call(dma.i2c.read),
        Op::DropN(2),
    ]
}

impl Dma {
    /// Finds the two commands in the table of the device.  `DMAADDR` is
    /// looked at first.
    pub fn new(all: &CommandTable, i2c: I2cFunctions) -> (r: Result<Dma, ProtocolError>)
        ensures
            r == match resolve(all.spec_get(DmaCommand::Address.spec_name()), DmaCommand::Address) {
                Err(e) => Err(e),
                Ok(dmaaddr) => match resolve(
                    all.spec_get(DmaCommand::Sequential.spec_name()),
                    DmaCommand::Sequential,
                ) {
                    Err(e) => Err(e),
                    Ok(dmaseq) => Ok(Dma { dmaaddr, dmaseq, i2c }),
                },
            },
    {
        let dmaaddr = match all.dma_command(DmaCommand::Address) {
            Ok(code) => code,
            Err(e) => {
                return Err(e);
            },
        };
        let dmaseq = match all.dma_command(DmaCommand::Sequential) {
            Ok(code) => code,
            Err(e) => {
                return Err(e);
            },
        };
        Ok(Dma { dmaaddr, dmaseq, i2c })
    }

    /// Appends the operations of an indirect read to a program.  The read
    /// makes two calls: the write that sets the address, whose result says
    /// only whether it went through, and the transfer, whose result is the
    /// data.
    pub fn dmaread_ops(&self, ops: &mut Vec<Op>, addr: [u8; 2], nbytes: u8)
        ensures
            final(ops)@ == old(ops)@ + indirect_read(*self, addr@, nbytes),
    {
        ops.push(Op::Push(self.dmaaddr));
        ops.push(Op::Push(addr[0]));
        ops.push(Op::Push(addr[1]));
        ops.push(Op::Push(2));
        ops.push(Op::Call(self.i2c.write));
        ops.push(Op::DropN(4));
        ops.push(Op::Push(self.dmaseq));
        ops.push(Op::Push(nbytes));
        ops.push(Op::Call(self.i2c.read));
        ops.push(Op::DropN(2));
        assert(ops@ =~= old(ops)@ + indirect_read(*self, addr@, nbytes));
    }
}

/// Why a read gave no 32-bit word.
#[derive(Copy, Clone, Debug, PartialEq, Eq, Structural)]
pub enum ReadError {
    /// The device refused the read, with this error code.
    Failed { code: u32 },
    /// The read gave this many bytes where a fixed number was due.
    BadLength { found: usize },
}

/// The 32-bit value that a read of four bytes gave, low byte first.
pub open spec fn spec_word_result(result: Result<Seq<u8>, u32>) -> Result<u32, ReadError> {
    match result {
        Err(code) => Err(ReadError::Failed { code }),
        Ok(bytes) => if bytes.len() != 4 {
            Err(ReadError::BadLength { found: bytes.len() as usize })
        } else {
            Ok(crate::bytes::le_u32(bytes))
        },
    }
}

/// Reads the result of a four-byte read as a 32-bit value, low byte first.
pub fn word_result(result: &CallResult) -> (r: Result<u32, ReadError>)
    ensures
        r == spec_word_result(result_view(*result)),
{
    match result {
        Err(err) => Err(ReadError::Failed { code: *err }),
        Ok(bytes) => {
            if bytes.len() != 4 {
                return Err(ReadError::BadLength { found: bytes.len() });
            }
            Ok(crate::bytes::u32_from_le(bytes.as_slice()))
        },
    }
}

/// The operations that every program starts with hold no call.
pub proof fn lemma_base_calls(controller: u8, port: u8, mux: Option<(u8, u8)>, address: u8)
    ensures
        num_calls(spec_base_ops(controller, port, mux, address)) == 0,
{
    let e = Seq::<Op>::empty();
    let base = spec_base_ops(controller, port, mux, address);
    let b1 = e.push(base[0]);
    let b2 = b1.push(base[1]);
    let b3 = b2.push(base[2]);
    let b4 = b3.push(base[3]);
    let b5 = b4.push(base[4]);
    lemma_num_calls_push(e, base[0]);
    lemma_num_calls_push(b1, base[1]);
    lemma_num_calls_push(b2, base[2]);
    lemma_num_calls_push(b3, base[3]);
    lemma_num_calls_push(b4, base[4]);
    assert(b5 =~= base);
}

/// Setting the indirect address is one call, and an indirect read is two:
/// the second result of an indirect read is the data.
pub proof fn lemma_indirect_calls(dma: Dma, addr: Seq<u8>, nbytes: u8)
    ensures
        num_calls(set_address(dma, addr)) == 1,
        num_calls(indirect_read(dma, addr, nbytes)) == 2,
{
    let e = Seq::<Op>::empty();
    let set = set_address(dma, addr);
    let s1 = e.push(set[0]);
    let s2 = s1.push(set[1]);
    let s3 = s2.push(set[2]);
    let s4 = s3.push(set[3]);
    let s5 = s4.push(set[4]);
    let s6 = s5.push(set[5]);
    lemma_num_calls_push(e, set[0]);
    lemma_num_calls_push(s1, set[1]);
    lemma_num_calls_push(s2, set[2]);
    lemma_num_calls_push(s3, set[3]);
    lemma_num_calls_push(s4, set[4]);
    lemma_num_calls_push(s5, set[5]);
    assert(s6 =~= set);

    let t1 = e.push(Op::Push(dma.dmaseq));
    let t2 = t1.push(Op::Push(nbytes));
    let t3 = t2.push(Op::Call(dma.i2c.read));
    let t4 = t3.push(Op::DropN(2));
    lemma_num_calls_push(e, Op::Push(dma.dmaseq));
    lemma_num_calls_push(t1, Op::Push(nbytes));
    lemma_num_calls_push(t2, Op::Call(dma.i2c.read));
    lemma_num_calls_push(t3, Op::DropN(2));
    assert(t4 =~= seq![
        Op::Push(dma.dmaseq),
        Op::Push(nbytes),
        Op::Call(dma.i2c.read),
        Op::DropN(2),
    ]);
    lemma_num_calls_add(set, t4);
}

} // verus!
