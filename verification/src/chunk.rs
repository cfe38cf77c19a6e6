//! The chunk: a run of bytecode with the constants it loads and, for every
//! byte of code, the source line it came from.

use crate::text::{align_left, align_right, decimal, push_left, push_number};
use crate::value::Value;
use vstd::prelude::*;
use vstd::std_specs::convert::{FromSpecImpl, TryFromSpecImpl};

verus! {

/// The instructions of the machine. Each is one byte of code; `Constant` is
/// followed by one operand byte, the others by none.
#[derive(Clone, Copy, Debug, PartialEq, Eq, Structural)]
pub enum Opcode {
    Constant,
    Negate,
    Return,
    Add,
    Subtract,
    Multiply,
    Divide,
}

impl Opcode {
    /// The byte that stands for the instruction in code.
    pub open spec fn byte(self) -> u8 {
        match self {
            Opcode::Constant => 0,
            Opcode::Negate => 1,
            Opcode::Return => 2,
            Opcode::Add => 3,
            Opcode::Subtract => 4,
            Opcode::Multiply => 5,
            Opcode::Divide => 6,
        }
    }

    /// The instruction that a byte of code stands for, if it stands for one.
    pub open spec fn decode(byte: u8) -> Option<Opcode> {
        if byte == 0 {
            Some(Opcode::Constant)
        } else if byte == 1 {
            Some(Opcode::Negate)
        } else if byte == 2 {
            Some(Opcode::Return)
        } else if byte == 3 {
            Some(Opcode::Add)
        } else if byte == 4 {
            Some(Opcode::Subtract)
        } else if byte == 5 {
            Some(Opcode::Multiply)
        } else if byte == 6 {
            Some(Opcode::Divide)
        } else {
            None
        }
    }

    /// The number of operand bytes that follow the instruction.
    pub open spec fn operands(self) -> int {
        if self == Opcode::Constant {
            1
        } else {
            0
        }
    }

    /// The name under which the instruction is listed.
    pub open spec fn name(self) -> Seq<char> {
        match self {
            Opcode::Constant => "OP_CONSTANT"@,
            Opcode::Negate => "OP_NEGATE"@,
            Opcode::Return => "OP_RETURN"@,
            Opcode::Add => "OP_ADD"@,
            Opcode::Subtract => "OP_SUBTRACT"@,
            Opcode::Multiply => "OP_MULTIPLY"@,
            Opcode::Divide => "OP_DIVIDE"@,
        }
    }

    /// The name under which the instruction is listed.
    pub fn mnemonic(self) -> (text: &'static str)
        ensures
            text@ == self.name(),
    {
        match self {
            Opcode::Constant => "OP_CONSTANT",
            Opcode::Negate => "OP_NEGATE",
            Opcode::Return => "OP_RETURN",
            Opcode::Add => "OP_ADD",
            Opcode::Subtract => "OP_SUBTRACT",
            Opcode::Multiply => "OP_MULTIPLY",
            Opcode::Divide => "OP_DIVIDE",
        }
    }
}

/// A byte that stands for no instruction.
#[derive(Clone, Copy, Debug, PartialEq, Eq, Structural)]
pub struct InvalidOpcode {
    pub byte: u8,
}

impl From<Opcode> for u8 {
    /// The byte that stands for the instruction in code.
    fn from(opcode: Opcode) -> (byte: u8) {
        match opcode {
            Opcode::Constant => 0,
            Opcode::Negate => 1,
            Opcode::Return => 2,
            Opcode::Add => 3,
            Opcode::Subtract => 4,
            Opcode::Multiply => 5,
            Opcode::Divide => 6,
        }
    }
}

impl FromSpecImpl<Opcode> for u8 {
    open spec fn obeys_from_spec() -> bool {
        true
    }

    open spec fn from_spec(opcode: Opcode) -> u8 {
        opcode.byte()
    }
}

impl TryFrom<u8> for Opcode {
    type Error = InvalidOpcode;

    /// The instruction that `byte` stands for, or the byte back as an
    /// error if it stands for none.
    fn try_from(byte: u8) -> (opcode: Result<Opcode, InvalidOpcode>) {
        match byte {
            0 => Ok(Opcode::Constant),
            1 => Ok(Opcode::Negate),
            2 => Ok(Opcode::Return),
            3 => Ok(Opcode::Add),
            4 => Ok(Opcode::Subtract),
            5 => Ok(Opcode::Multiply),
            6 => Ok(Opcode::Divide),
            _ => Err(InvalidOpcode { byte }),
        }
    }
}

impl TryFromSpecImpl<u8> for Opcode {
    open spec fn obeys_try_from_spec() -> bool {
        true
    }

    open spec fn try_from_spec(byte: u8) -> Result<Opcode, InvalidOpcode> {
        match Opcode::decode(byte) {
            Some(opcode) => Ok(opcode),
            None => Err(InvalidOpcode { byte }),
        }
    }
}

/// Every instruction is read back from its own byte, and a byte stands for
/// at most one instruction.
pub proof fn lemma_opcode_round_trip(opcode: Opcode, byte: u8)
    ensures
        Opcode::decode(opcode.byte()) == Some(opcode),
        Opcode::decode(byte) == Some(opcode) <==> byte == opcode.byte(),
{
}

/// The index of a constant in the pool of its chunk.
pub type Constant = u8;

/// The number of constants that one chunk can hold: as many as an operand
/// byte can tell apart.
pub const MAX_CONSTANTS: usize = 256;

/// A constant was not added, because the pool is full.
#[derive(Clone, Copy, Debug, PartialEq, Eq, Structural)]
pub struct TooManyConstants;

/// What a chunk holds.
pub ghost struct ChunkView {
    /// Opcodes, each followed by its operand bytes.
    pub code: Seq<u8>,
    /// The constant pool.
    pub constants: Seq<Value>,
    /// The source line of every byte of `code`.
    pub lines: Seq<u32>,
}

impl ChunkView {
    /// A chunk that holds nothing.
    pub open spec fn empty() -> ChunkView {
        ChunkView { code: Seq::empty(), constants: Seq::empty(), lines: Seq::empty() }
    }

    /// The chunk with one more byte of code, from the given line.
    pub open spec fn write(self, byte: u8, line: u32) -> ChunkView {
        ChunkView { code: self.code.push(byte), lines: self.lines.push(line), ..self }
    }

    /// The chunk with one more constant.
    pub open spec fn add(self, value: Value) -> ChunkView {
        ChunkView { constants: self.constants.push(value), ..self }
    }

    /// Every byte of code has its line, and an operand byte can name every
    /// constant.
    pub open spec fn wf(self) -> bool {
        &&& self.lines.len() == self.code.len()
        &&& self.constants.len() <= MAX_CONSTANTS
    }
}

/// What stands at one offset of the code.
#[derive(Clone, Copy, Debug, PartialEq, Eq, Structural)]
pub enum Operation {
    /// An instruction without operands.
    Simple(Opcode),
    /// A constant load: its operand, and with it the constant that the
    /// operand names, if the pool holds one there.
    Constant(Constant, Option<Value>),
    /// An instruction whose operand lies beyond the end of the code.
    Truncated(Opcode),
    /// A byte that is no instruction.
    Unknown(u8),
}

/// One entry of a listing: the offset of an instruction, its source line
/// unless the byte before it is from the same line, and what the
/// instruction is.
#[derive(Clone, Copy, Debug, PartialEq, Eq, Structural)]
pub struct Disassembly {
    pub offset: usize,
    pub line: Option<u32>,
    pub operation: Operation,
}

/// The column of a listing that shows the line, or a mark in its place.
pub open spec fn line_column(line: Option<u32>) -> Seq<char> {
    match line {
        Some(line) => align_right(decimal(line as nat), 4, ' ') + " "@,
        None => "   | "@,
    }
}

/// The columns of a listing that show the instruction. `constant` is the
/// printed form of the constant that a constant load names.
pub open spec fn operation_columns(operation: Operation, constant: Seq<char>) -> Seq<char> {
    match operation {
        Operation::Simple(opcode) => opcode.name(),
        Operation::Constant(index, value) => align_left(Opcode::Constant.name(), 16) + " "@
            + align_right(decimal(index as nat), 4, ' ') + if value is Some {
            " '"@ + constant + "'"@
        } else {
            Seq::empty()
        },
        Operation::Truncated(opcode) => opcode.name(),
        Operation::Unknown(byte) => "Unknown opcode "@ + decimal(byte as nat),
    }
}

impl Disassembly {
    /// The line of a listing for the entry: the offset in four digits, the
    /// line column and the columns of the instruction. `constant` is the
    /// printed form of the constant that the entry names, if it names one.
    pub open spec fn text(self, constant: Seq<char>) -> Seq<char> {
        align_right(decimal(self.offset as nat), 4, '0') + " "@ + line_column(self.line)
            + operation_columns(self.operation, constant)
    }

    /// The line of a listing for the entry. `constant` is the printed form
    /// of the constant that the entry names; where it names none,
    /// `constant` is not looked at.
    pub fn render(&self, constant: &str) -> (text: String)
        ensures
            text@ == self.text(constant@),
    {
        proof {
            reveal_strlit("0");
            reveal_strlit(" ");
        }
        let mut text = String::new();
        push_number(&mut text, self.offset as u64, 4, "0");
        text.append(" ");
        match self.line {
            Some(line) => {
                push_number(&mut text, line as u64, 4, " ");
                text.append(" ");
            },
            None => {
                text.append("   | ");
            },
        }
        match self.operation {
            Operation::Simple(opcode) => {
                text.append(opcode.mnemonic());
            },
            Operation::Constant(index, value) => {
                push_left(&mut text, Opcode::Constant.mnemonic(), 16);
                text.append(" ");
                push_number(&mut text, index as u64, 4, " ");
                if value.is_some() {
                    text.append(" '");
                    text.append(constant);
                    text.append("'");
                }
            },
            Operation::Truncated(opcode) => {
                text.append(opcode.mnemonic());
            },
            Operation::Unknown(byte) => {
                text.append("Unknown opcode ");
                push_number(&mut text, byte as u64, 0, " ");
            },
        }
        text
    }
}

/// The heading of the listing of a chunk with the given name.
pub fn heading(name: &str) -> (text: String)
    ensures
        text@ == "== "@ + name@ + " =="@,
{
    let mut text = String::new();
    text.append("== ");
    text.append(name);
    text.append(" ==");
    text
}

/// What stands in the code at `offset`.
pub open spec fn operation_at(chunk: ChunkView, offset: int) -> Operation {
    let byte = chunk.code[offset];
    match Opcode::decode(byte) {
        None => Operation::Unknown(byte),
        Some(opcode) => if opcode.operands() == 0 {
            Operation::Simple(opcode)
        } else if offset + 1 < chunk.code.len() {
            let index = chunk.code[offset + 1];
            Operation::Constant(
                index,
                if index < chunk.constants.len() {
                    Some(chunk.constants[index as int])
                } else {
                    None
                },
            )
        } else {
            Operation::Truncated(opcode)
        },
    }
}

/// The offset behind the instruction at `offset`: one byte on for a byte
/// that is no instruction, and else as far as the instruction and its
/// operands reach within the code.
pub open spec fn next_offset(chunk: ChunkView, offset: int) -> int {
    match operation_at(chunk, offset) {
        Operation::Constant(_, _) => offset + 2,
        _ => offset + 1,
    }
}

/// The line to show for the instruction at `offset`: none where the byte
/// before it is from the same line.
pub open spec fn line_shown(chunk: ChunkView, offset: int) -> Option<u32> {
    if offset > 0 && chunk.lines[offset] == chunk.lines[offset - 1] {
        None
    } else {
        Some(chunk.lines[offset])
    }
}

/// The listing entry for the instruction at `offset`.
pub open spec fn disassembly_at(chunk: ChunkView, offset: int) -> Disassembly {
    Disassembly {
        offset: offset as usize,
        line: line_shown(chunk, offset),
        operation: operation_at(chunk, offset),
    }
}

/// The listing of the code from `offset` on, instruction by instruction.
pub open spec fn listing(chunk: ChunkView, offset: int) -> Seq<Disassembly>
    decreases chunk.code.len() - offset,
{
    if 0 <= offset < chunk.code.len() {
        seq![disassembly_at(chunk, offset)] + listing(chunk, next_offset(chunk, offset))
    } else {
        Seq::empty()
    }
}

/// Every entry of a listing is the entry for the instruction at its offset,
/// and the entry behind it starts where that instruction ends.
pub proof fn lemma_listing_entry(chunk: ChunkView, offset: int, i: int)
    requires
        chunk.code.len() <= usize::MAX,
        0 <= offset,
        0 <= i < listing(chunk, offset).len(),
    ensures
        offset <= listing(chunk, offset)[i].offset < chunk.code.len(),
        listing(chunk, offset)[i] == disassembly_at(
            chunk,
            listing(chunk, offset)[i].offset as int,
        ),
        i == 0 ==> listing(chunk, offset)[i].offset == offset,
        i > 0 ==> listing(chunk, offset)[i].offset == next_offset(
            chunk,
            listing(chunk, offset)[i - 1].offset as int,
        ),
    decreases chunk.code.len() - offset,
{
    if i > 0 {
        let next = next_offset(chunk, offset);
        lemma_listing_entry(chunk, next, i - 1);
    }
}

/// Where every instruction has one source line, its own and that of its
/// operands, a listing shows a line once: the first entry shows its line,
/// and every other entry shows its line exactly if the instruction before it
/// is from another line.
pub proof fn lemma_line_shown_once(chunk: ChunkView, i: int)
    requires
        chunk.code.len() <= usize::MAX,
        0 <= i < listing(chunk, 0).len(),
        i > 0 ==> chunk.lines[listing(chunk, 0)[i].offset - 1] == chunk.lines[listing(
            chunk,
            0,
        )[i - 1].offset as int],
    ensures
        i == 0 ==> listing(chunk, 0)[i].line == Some(chunk.lines[0]),
        i > 0 ==> listing(chunk, 0)[i].line == if chunk.lines[listing(chunk, 0)[i].offset as int]
            == chunk.lines[listing(chunk, 0)[i - 1].offset as int] {
            None
        } else {
            Some(chunk.lines[listing(chunk, 0)[i].offset as int])
        },
{
    lemma_listing_entry(chunk, 0, i);
    if i > 0 {
        lemma_listing_entry(chunk, 0, i - 1);
    }
}

/// Bytecode under construction: code is appended byte by byte, constants
/// one by one, and nothing is ever changed or taken out.
pub struct Chunk {
    code: Vec<u8>,
    constants: Vec<Value>,
    lines: Vec<u32>,
}

impl View for Chunk {
    type V = ChunkView;

    closed spec fn view(&self) -> ChunkView {
        ChunkView { code: self.code@, constants: self.constants@, lines: self.lines@ }
    }
}

impl Chunk {
    /// Every byte of code has its line, and an operand byte can name every
    /// constant.
    pub open spec fn wf(&self) -> bool {
        self@.wf()
    }

    /// An empty chunk.
    pub fn new() -> (chunk: Self)
        ensures
            chunk@ == ChunkView::empty(),
            chunk.wf(),
    {
        Self { code: Vec::new(), constants: Vec::new(), lines: Vec::new() }
    }

    /// Appends an instruction that comes from the given source line. Its
    /// operand, if it has one, is written by `write_constant` next.
    pub fn write_opcode(&mut self, opcode: Opcode, line: u32)
        requires
            old(self).wf(),
        ensures
            final(self)@ == old(self)@.write(opcode.byte(), line),
            final(self).wf(),
    {
        self.code.push(opcode.into());
        self.lines.push(line);
    }

    /// Appends `value` to the constant pool and returns its index there. A
    /// pool that holds `MAX_CONSTANTS` values is full: the chunk is then
    /// left as it is.
    pub fn add_constant(&mut self, value: Value) -> (index: Result<Constant, TooManyConstants>)
        requires
            old(self).wf(),
        ensures
            final(self).wf(),
            match index {
                Ok(index) => {
                    &&& index == old(self)@.constants.len() < MAX_CONSTANTS
                    &&& final(self)@ == old(self)@.add(value)
                },
                Err(_) => {
                    &&& old(self)@.constants.len() == MAX_CONSTANTS
                    &&& final(self)@ == old(self)@
                },
            },
    {
        let count = self.constants.len();
        if count < MAX_CONSTANTS {
            self.constants.push(value);
            Ok(count as u8)
        } else {
            Err(TooManyConstants)
        }
    }

    /// Appends the operand of a constant load, from the given source line.
    pub fn write_constant(&mut self, constant: Constant, line: u32)
        requires
            old(self).wf(),
        ensures
            final(self)@ == old(self)@.write(constant, line),
            final(self).wf(),
    {
        self.code.push(constant);
        self.lines.push(line);
    }

    /// The code.
    pub fn code(&self) -> (code: &[u8])
        ensures
            code@ == self@.code,
    {
        self.code.as_slice()
    }

    /// The constant pool.
    pub fn constants(&self) -> (constants: &[Value])
        ensures
            constants@ == self@.constants,
    {
        self.constants.as_slice()
    }

    /// The source line of every byte of the code.
    pub fn lines(&self) -> (lines: &[u32])
        ensures
            lines@ == self@.lines,
    {
        self.lines.as_slice()
    }

    /// The listing of the whole code, instruction by instruction.
    pub fn disassemble(&self) -> (entries: Vec<Disassembly>)
        requires
            self.wf(),
        ensures
            entries@ == listing(self@, 0),
    {
        let mut entries: Vec<Disassembly> = Vec::new();
        let mut offset: usize = 0;
        while offset < self.code.len()
            invariant
                self.wf(),
                0 <= offset <= self@.code.len(),
                entries@ + listing(self@, offset as int) == listing(self@, 0),
            decreases self@.code.len() - offset,
        {
            let (entry, next) = self.disassemble_instruction(offset);
            entries.push(entry);
            offset = next;
        }
        entries
    }

    /// The listing entry for the instruction at `offset`, and the offset of
    /// the instruction behind it.
    pub fn disassemble_instruction(&self, offset: usize) -> (entry: (Disassembly, usize))
        requires
            self.wf(),
            offset < self@.code.len(),
        ensures
            entry.0 == disassembly_at(self@, offset as int),
            entry.1 == next_offset(self@, offset as int),
            offset < entry.1 <= self@.code.len(),
    {
        assert(offset < self.code.len());
        let line = self.lines[offset];
        let line = if offset > 0 && line == self.lines[offset - 1] {
            None
        } else {
            Some(line)
        };
        match Opcode::try_from(self.code[offset]) {
            Ok(Opcode::Constant) => self.constant_instruction(offset, line),
            Ok(opcode) => Self::simple_instruction(opcode, offset, line),
            Err(InvalidOpcode { byte }) => (
                Disassembly { offset, line, operation: Operation::Unknown(byte) },
                offset + 1,
            ),
        }
    }

    /// The entry for an instruction without operands.
    fn simple_instruction(opcode: Opcode, offset: usize, line: Option<u32>) -> (entry: (
        Disassembly,
        usize,
    ))
        requires
            offset < usize::MAX,
        ensures
            entry.0 == (Disassembly { offset, line, operation: Operation::Simple(opcode) }),
            entry.1 == offset + 1,
    {
        (Disassembly { offset, line, operation: Operation::Simple(opcode) }, offset + 1)
    }

    /// The entry for a constant load.
    fn constant_instruction(&self, offset: usize, line: Option<u32>) -> (entry: (
        Disassembly,
        usize,
    ))
        requires
            self.wf(),
            offset < self@.code.len(),
            Opcode::decode(self@.code[offset as int]) == Some(Opcode::Constant),
        ensures
            entry.0 == (Disassembly {
                offset,
                line,
                operation: operation_at(self@, offset as int),
            }),
            entry.1 == next_offset(self@, offset as int),
    {
        assert(offset < self.code.len());
        if offset + 1 < self.code.len() {
            let constant = self.code[offset + 1];
            let value = if (constant as usize) < self.constants.len() {
                Some(self.constants[constant as usize])
            } else {
                None
            };
            (Disassembly { offset, line, operation: Operation::Constant(constant, value) }, offset + 2)
        } else {
            (Disassembly { offset, line, operation: Operation::Truncated(Opcode::Constant) }, offset + 1)
        }
    }
}

} // verus!
