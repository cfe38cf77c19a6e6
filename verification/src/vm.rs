//! The machine: it runs the code of a chunk on a stack of values.
//!
//! The machine fetches, decodes and executes one instruction after the other.
//! It loads constants, negates, and keeps the stack in order by itself. The
//! arithmetic of `Add`, `Subtract`, `Multiply` and `Divide` is the host's: at
//! such an instruction the machine takes the two operands off the stack, hands
//! them out, and goes on when the host hands it the result.

use crate::chunk::{disassembly_at, Chunk, ChunkView, Disassembly, Opcode};
use crate::value::Value;
use vstd::prelude::*;

verus! {

/// Why a run ended without a result. Each of these says that the chunk is
/// malformed, not that the program it holds computed something wrong.
#[derive(Clone, Copy, Debug, PartialEq, Eq, Structural)]
pub enum InterpretError {
    /// A byte was fetched as an instruction and is none.
    UnknownOpcode,
    /// An instruction needs more values than the stack holds.
    StackUnderflow,
    /// The code ended where an instruction or an operand was due.
    EndOfCode,
    /// The operand of a constant load names no constant of the chunk.
    UnknownConstant,
}

/// The operators whose arithmetic the host does.
#[derive(Clone, Copy, Debug, PartialEq, Eq, Structural)]
pub enum Operator {
    Add,
    Subtract,
    Multiply,
    Divide,
}

/// Why a machine has stopped without a fault.
#[derive(Clone, Copy, Debug, PartialEq, Eq, Structural)]
pub enum Pause {
    /// An arithmetic instruction has taken its operands off the stack. The
    /// host computes `left operator right`, and the result goes onto the
    /// stack before the next instruction.
    Arithmetic { operator: Operator, left: Value, right: Value },
    /// A `Return` has taken the result of the run off the stack, and the
    /// run is over.
    Return(Value),
}

/// The state of a machine.
pub ghost struct Machine {
    /// The offset in the code of the next byte to fetch.
    pub ip: int,
    /// The stack, with its top at the end.
    pub stack: Seq<Value>,
}

impl Machine {
    /// The machine `count` bytes further in the code.
    pub open spec fn skip(self, count: int) -> Machine {
        Machine { ip: self.ip + count, ..self }
    }

    /// The machine with the top `count` values taken off its stack.
    pub open spec fn pop(self, count: int) -> Machine {
        Machine { stack: self.stack.subrange(0, self.stack.len() - count), ..self }
    }

    /// The machine with `value` on top of its stack.
    pub open spec fn push(self, value: Value) -> Machine {
        Machine { stack: self.stack.push(value), ..self }
    }

    /// The value that lies `depth` values below the top of the stack.
    pub open spec fn peek(self, depth: int) -> Value {
        self.stack[self.stack.len() - 1 - depth]
    }
}

/// The operator of an arithmetic instruction.
pub open spec fn operator_of(opcode: Opcode) -> Option<Operator> {
    match opcode {
        Opcode::Add => Some(Operator::Add),
        Opcode::Subtract => Some(Operator::Subtract),
        Opcode::Multiply => Some(Operator::Multiply),
        Opcode::Divide => Some(Operator::Divide),
        _ => None,
    }
}

/// What the instruction `opcode` does to a machine that has just fetched
/// it: the machine after it, and whether it stops there. An instruction that
/// fails leaves the stack as it was.
pub open spec fn execute(chunk: ChunkView, machine: Machine, opcode: Opcode) -> (
    Machine,
    Result<Option<Pause>, InterpretError>,
) {
    match opcode {
        Opcode::Constant => if machine.ip >= chunk.code.len() {
            (machine, Err(InterpretError::EndOfCode))
        } else if chunk.code[machine.ip] >= chunk.constants.len() {
            (machine.skip(1), Err(InterpretError::UnknownConstant))
        } else {
            (machine.skip(1).push(chunk.constants[chunk.code[machine.ip] as int]), Ok(None))
        },
        Opcode::Negate => if machine.stack.len() < 1 {
            (machine, Err(InterpretError::StackUnderflow))
        } else {
            (machine.pop(1).push(machine.peek(0).negated()), Ok(None))
        },
        Opcode::Return => if machine.stack.len() < 1 {
            (machine, Err(InterpretError::StackUnderflow))
        } else {
            (machine.pop(1), Ok(Some(Pause::Return(machine.peek(0)))))
        },
        _ => if machine.stack.len() < 2 {
            (machine, Err(InterpretError::StackUnderflow))
        } else {
            (
                machine.pop(2),
                Ok(
                    Some(
                        Pause::Arithmetic {
                            operator: operator_of(opcode).unwrap(),
                            left: machine.peek(1),
                            right: machine.peek(0),
                        },
                    ),
                ),
            )
        },
    }
}

/// One step of a machine: it fetches the byte at the instruction pointer,
/// goes one byte on, decodes the byte and executes the instruction.
pub open spec fn step(chunk: ChunkView, machine: Machine) -> (
    Machine,
    Result<Option<Pause>, InterpretError>,
) {
    if machine.ip < 0 || machine.ip >= chunk.code.len() {
        (machine, Err(InterpretError::EndOfCode))
    } else {
        match Opcode::decode(chunk.code[machine.ip]) {
            None => (machine.skip(1), Err(InterpretError::UnknownOpcode)),
            Some(opcode) => execute(chunk, machine.skip(1), opcode),
        }
    }
}

/// A machine taking step after step, until it stops or fails.
pub open spec fn run(chunk: ChunkView, machine: Machine) -> (
    Machine,
    Result<Pause, InterpretError>,
)
    decreases chunk.code.len() - machine.ip,
{
    let (next, outcome) = step(chunk, machine);
    match outcome {
        Ok(None) => {
            proof {
                lemma_step_forward(chunk, machine);
            }
            run(chunk, next)
        },
        Ok(Some(pause)) => (next, Ok(pause)),
        Err(error) => (next, Err(error)),
    }
}

/// A step never goes back in the code, and one after which the machine goes
/// on has gone forward.
pub proof fn lemma_step_forward(chunk: ChunkView, machine: Machine)
    ensures
        step(chunk, machine).0.ip >= machine.ip,
        step(chunk, machine).1 == Ok::<Option<Pause>, InterpretError>(None) ==> machine.ip < step(
            chunk,
            machine,
        ).0.ip <= chunk.code.len(),
{
}

/// A stack machine for the code of a chunk.
pub struct VM {
    ip: usize,
    stack: Vec<Value>,
}

impl View for VM {
    type V = Machine;

    closed spec fn view(&self) -> Machine {
        Machine { ip: self.ip as int, stack: self.stack@ }
    }
}

impl VM {
    /// A machine at the start of the code, with an empty stack.
    pub fn new() -> (vm: Self)
        ensures
            vm@ == (Machine { ip: 0, stack: Seq::empty() }),
    {
        Self { ip: 0, stack: Vec::with_capacity(256) }
    }

    /// The offset in the code of the next byte to fetch.
    pub fn ip(&self) -> (ip: usize)
        ensures
            ip == self@.ip,
    {
        self.ip
    }

    /// The stack, from its bottom to its top.
    pub fn stack(&self) -> (stack: &[Value])
        ensures
            stack@ == self@.stack,
    {
        self.stack.as_slice()
    }

    /// What a trace shows of the machine before its next step, beside the
    /// stack: the listing entry of the instruction that it is about to
    /// execute, if the code has not ended.
    pub fn trace(&self, chunk: &Chunk) -> (entry: Option<Disassembly>)
        requires
            chunk.wf(),
        ensures
            entry == if self@.ip < chunk@.code.len() {
                Some(disassembly_at(chunk@, self@.ip))
            } else {
                None
            },
    {
        if self.ip < chunk.code().len() {
            Some(chunk.disassemble_instruction(self.ip).0)
        } else {
            None
        }
    }

    /// Sets the machine back to the start of the code. The stack stays as
    /// it is.
    pub fn rewind(&mut self)
        ensures
            final(self)@ == (Machine { ip: 0, stack: old(self)@.stack }),
    {
        self.ip = 0;
    }

    /// Runs the code of `chunk` from its start, on the stack as it is,
    /// until an instruction asks for the host's arithmetic, returns or
    /// fails.
    pub fn interpret(&mut self, chunk: &Chunk) -> (outcome: Result<Pause, InterpretError>)
        ensures
            (final(self)@, outcome) == run(chunk@, Machine { ip: 0, stack: old(self)@.stack }),
    {
        self.rewind();
        self.run(chunk)
    }

    /// Puts the result of the host's arithmetic onto the stack and runs on,
    /// until an instruction asks for the host's arithmetic, returns or
    /// fails.
    pub fn resume(&mut self, chunk: &Chunk, result: Value) -> (outcome: Result<
        Pause,
        InterpretError,
    >)
        ensures
            (final(self)@, outcome) == run(chunk@, old(self)@.push(result)),
    {
        self.push(result);
        self.run(chunk)
    }

    /// Takes step after step, until an instruction asks for the host's
    /// arithmetic, returns or fails.
    pub fn run(&mut self, chunk: &Chunk) -> (outcome: Result<Pause, InterpretError>)
        ensures
            (final(self)@, outcome) == run(chunk@, old(self)@),
    {
        loop
            invariant
                run(chunk@, self@) == run(chunk@, old(self)@),
            decreases chunk@.code.len() - self@.ip,
        {
            proof {
                lemma_step_forward(chunk@, self@);
            }
            match self.step(chunk) {
                Ok(None) => {},
                Ok(Some(pause)) => {
                    return Ok(pause);
                },
                Err(error) => {
                    return Err(error);
                },
            }
        }
    }

    /// Fetches, decodes and executes one instruction. `None` says that the
    /// machine goes on with the next instruction.
    pub fn step(&mut self, chunk: &Chunk) -> (outcome: Result<Option<Pause>, InterpretError>)
        ensures
            (final(self)@, outcome) == step(chunk@, old(self)@),
    {
        let opcode = match self.read_opcode(chunk) {
            Ok(opcode) => opcode,
            Err(error) => {
                return Err(error);
            },
        };
        match opcode {
            Opcode::Constant => {
                let constant = match self.read_constant(chunk) {
                    Ok(constant) => constant,
                    Err(error) => {
                        return Err(error);
                    },
                };
                self.push(constant);
                Ok(None)
            },
            Opcode::Negate => {
                if self.stack.len() < 1 {
                    return Err(InterpretError::StackUnderflow);
                }
                let ghost before = self@;
                let top = self.top_mut();
                *top = top.negate();
                proof {
                    assert(self@.stack =~= before.pop(1).push(before.peek(0).negated()).stack);
                }
                Ok(None)
            },
            Opcode::Return => {
                match self.pop() {
                    Some(value) => Ok(Some(Pause::Return(value))),
                    None => Err(InterpretError::StackUnderflow),
                }
            },
            Opcode::Add => self.binary(Operator::Add),
            Opcode::Subtract => self.binary(Operator::Subtract),
            Opcode::Multiply => self.binary(Operator::Multiply),
            Opcode::Divide => self.binary(Operator::Divide),
        }
    }

    /// Takes the two operands of an arithmetic instruction off the stack,
    /// the right one first.
    fn binary(&mut self, operator: Operator) -> (outcome: Result<Option<Pause>, InterpretError>)
        ensures
            match outcome {
                Ok(pause) => {
                    &&& old(self)@.stack.len() >= 2
                    &&& final(self)@ == old(self)@.pop(2)
                    &&& pause == Some(
                        Pause::Arithmetic {
                            operator,
                            left: old(self)@.peek(1),
                            right: old(self)@.peek(0),
                        },
                    )
                },
                Err(error) => {
                    &&& old(self)@.stack.len() < 2
                    &&& final(self)@ == old(self)@
                    &&& error == InterpretError::StackUnderflow
                },
            },
    {
        if self.stack.len() < 2 {
            return Err(InterpretError::StackUnderflow);
        }
        let right = self.stack.pop().unwrap();
        let left = self.stack.pop().unwrap();
        proof {
            assert(self@.stack =~= old(self)@.pop(2).stack);
        }
        Ok(Some(Pause::Arithmetic { operator, left, right }))
    }

    /// Fetches the byte at the instruction pointer and goes one byte on.
    fn read_byte(&mut self, chunk: &Chunk) -> (byte: Option<u8>)
        ensures
            final(self)@.stack == old(self)@.stack,
            old(self)@.ip < chunk@.code.len() ==> byte == Some(chunk@.code[old(self)@.ip])
                && final(self)@.ip == old(self)@.ip + 1,
            old(self)@.ip >= chunk@.code.len() ==> byte is None && final(self)@.ip == old(
                self,
            )@.ip,
    {
        let code = chunk.code();
        if self.ip < code.len() {
            let byte = code[self.ip];
            self.ip = self.ip + 1;
            Some(byte)
        } else {
            None
        }
    }

    /// Fetches the next byte and decodes it as an instruction.
    fn read_opcode(&mut self, chunk: &Chunk) -> (opcode: Result<Opcode, InterpretError>)
        ensures
            final(self)@.stack == old(self)@.stack,
            match opcode {
                Ok(opcode) => step(chunk@, old(self)@) == execute(
                    chunk@,
                    old(self)@.skip(1),
                    opcode,
                ) && final(self)@ == old(self)@.skip(1),
                Err(error) => step(chunk@, old(self)@) == (final(self)@, Err::<
                    Option<Pause>,
                    InterpretError,
                >(error)),
            },
    {
        match self.read_byte(chunk) {
            Some(byte) => match Opcode::try_from(byte) {
                Ok(opcode) => Ok(opcode),
                Err(_) => Err(InterpretError::UnknownOpcode),
            },
            None => Err(InterpretError::EndOfCode),
        }
    }

    /// Fetches the next byte and looks up the constant that it names.
    fn read_constant(&mut self, chunk: &Chunk) -> (constant: Result<Value, InterpretError>)
        ensures
            final(self)@.stack == old(self)@.stack,
            match constant {
                Ok(value) => execute(chunk@, old(self)@, Opcode::Constant) == (
                    final(self)@.push(value),
                    Ok::<Option<Pause>, InterpretError>(None),
                ),
                Err(error) => execute(chunk@, old(self)@, Opcode::Constant) == (
                    final(self)@,
                    Err::<Option<Pause>, InterpretError>(error),
                ),
            },
    {
        match self.read_byte(chunk) {
            Some(index) => {
                let constants = chunk.constants();
                if (index as usize) < constants.len() {
                    Ok(constants[index as usize])
                } else {
                    Err(InterpretError::UnknownConstant)
                }
            },
            None => Err(InterpretError::EndOfCode),
        }
    }

    /// Puts a value on top of the stack.
    pub fn push(&mut self, value: Value)
        ensures
            final(self)@ == old(self)@.push(value),
    {
        self.stack.push(value)
    }

    /// Takes the top value off the stack, if there is one.
    pub fn pop(&mut self) -> (value: Option<Value>)
        ensures
            old(self)@.stack.len() == 0 ==> value is None && final(self)@ == old(self)@,
            old(self)@.stack.len() > 0 ==> value == Some(old(self)@.peek(0)) && final(self)@
                == old(self)@.pop(1),
    {
        self.stack.pop()
    }

    /// The top value of the stack, if there is one.
    pub fn top(&self) -> (value: Option<Value>)
        ensures
            self@.stack.len() == 0 ==> value is None,
            self@.stack.len() > 0 ==> value == Some(self@.peek(0)),
    {
        let depth = self.stack.len();
        if depth > 0 {
            Some(self.stack[depth - 1])
        } else {
            None
        }
    }

    /// The top value of the stack, to be changed in place.
    fn top_mut(&mut self) -> (value: &mut Value)
        requires
            old(self)@.stack.len() > 0,
        ensures
            *value == old(self)@.peek(0),
            final(self)@.ip == old(self)@.ip,
            final(self)@.stack == old(self)@.stack.update(
                old(self)@.stack.len() - 1,
                *final(value),
            ),
    {
        let depth = self.stack.len();
        &mut self.stack[depth - 1]
    }
}

} // verus!
