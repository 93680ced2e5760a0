//! The execution engines: fetch, decode and execute over the common machine
//! state (accumulator, program counter, negative flag and the owned
//! mailbox).
//!
//! Input and output are explicit values rather than host callbacks: an
//! engine draws INP values from a queue of provided inputs and collects OUT
//! and SOUT values in order, so a host feeds inputs in (possibly one at a
//! time, whenever the engine reports that it is awaiting one) and renders
//! the collected outputs however it likes. Faults that the machine itself
//! defines nothing for — an undecodable word, an effective address outside
//! memory, a character value above 255 — end execution in an error state
//! that leaves the machine exactly as it was before the faulting cycle.
//!
//! Pointer-mode indirection applies to the eight address-requiring
//! instructions; the fixed-code instructions carry no address, so a pointer
//! flag on one of them changes nothing.

use vstd::prelude::*;

use crate::mailbox::Mailbox;
use crate::opcodes::{spec_decode, spec_requires_address, AddressType, MnemonicType, OpCode};

verus! {

/// Why execution ended abnormally. Each variant carries the values a
/// debugger needs to show the fault.
#[derive(Debug, Clone, Copy, PartialEq, Eq, Structural)]
pub enum RuntimeError {
    /// The word at the given address (first field) does not decode to any
    /// instruction (second field: the raw word).
    InvalidInstruction(u16, u16),
    /// An effective address or the program counter left the 0-99 range.
    AddressOutOfBounds(u16),
    /// The instruction at the given address (first field, raw word second)
    /// needs a capability this engine does not have.
    UnsupportedInstruction(u16, u16),
    /// SOUT asked for a character above 255.
    InvalidCharacter(u16),
}

/// Where execution stands after a cycle.
#[derive(Debug, Clone, Copy, PartialEq, Eq, Structural)]
pub enum RuntimeState {
    Running,
    Halted,
    /// INP was reached with no input left in the queue; the cycle had no
    /// effect and runs again once an input is provided.
    AwaitingInput,
    Error(RuntimeError),
}

impl RuntimeState {
    pub fn is_running(&self) -> (r: bool)
        ensures
            r == (*self is Running),
    {
        matches!(self, RuntimeState::Running)
    }

    pub fn is_halted(&self) -> (r: bool)
        ensures
            r == (*self is Halted),
    {
        matches!(self, RuntimeState::Halted)
    }

    pub fn is_error(&self) -> (r: bool)
        ensures
            r == (*self is Error),
    {
        matches!(self, RuntimeState::Error(_))
    }

    pub fn is_awaiting_input(&self) -> (r: bool)
        ensures
            r == (*self is AwaitingInput),
    {
        matches!(self, RuntimeState::AwaitingInput)
    }
}

/// Arithmetic results stay in the machine's 0-999 range by reducing modulo
/// 1000.
pub open spec fn spec_wrap(v: int) -> u16
    recommends
        v >= 0,
{
    (v % 1000) as u16
}

/// Brings a value back into the 0-999 range by subtracting 1000 as often as
/// needed.
pub fn wrap_between_valid_values(value: u16) -> (r: u16)
    ensures
        r == spec_wrap(value as int),
    decreases value,
{
    if value > 999 {
        wrap_between_valid_values(value - 1000)
    } else {
        value
    }
}

/// The minimal state that defines where execution is and what its sign
/// state is: created with everything zeroed except the program image.
pub struct RuntimeCommon {
    pub accumulator: u16,
    pub program_counter: u16,
    pub negative_flag: bool,
    pub mailbox: Mailbox,
}

impl RuntimeCommon {
    pub open spec fn inv(&self) -> bool {
        self.mailbox.inv()
    }

    /// Fresh machine state over a program image.
    pub fn new(mailbox: Mailbox) -> (r: RuntimeCommon)
        requires
            mailbox.inv(),
        ensures
            r.inv(),
            r.accumulator == 0,
            r.program_counter == 0,
            r.negative_flag == false,
            r.mailbox == mailbox,
    {
        RuntimeCommon { accumulator: 0, program_counter: 0, negative_flag: false, mailbox }
    }

    /// The word at a memory address.
    pub fn load(&self, addr: u16) -> (r: u16)
        requires
            self.inv(),
            addr < 100,
        ensures
            r == self.mailbox@[addr as int],
    {
        self.mailbox.get(addr)
    }

    /// Replaces the word at a memory address.
    pub fn store(&mut self, addr: u16, value: u16)
        requires
            old(self).inv(),
            addr < 100,
        ensures
            final(self).inv(),
            final(self).mailbox@ == old(self).mailbox@.update(addr as int, value),
            final(self).accumulator == old(self).accumulator,
            final(self).program_counter == old(self).program_counter,
            final(self).negative_flag == old(self).negative_flag,
    {
        self.mailbox.write(addr, value);
    }

    /// ADD semantics on a loaded operand value: the sum wraps modulo 1000
    /// and the negative flag is cleared.
    pub fn add(&mut self, operand: u16)
        requires
            old(self).inv(),
        ensures
            final(self).inv(),
            final(self).accumulator == spec_wrap(old(self).accumulator + operand),
            final(self).negative_flag == false,
            final(self).program_counter == old(self).program_counter,
            final(self).mailbox == old(self).mailbox,
    {
        let sum: u32 = self.accumulator as u32 + operand as u32;
        self.accumulator = (sum % 1000) as u16;
        self.negative_flag = false;
    }

    /// SUB semantics on a loaded operand value: a borrow sets the negative
    /// flag and leaves the absolute difference, not a two's-complement
    /// wraparound; without a borrow the flag is untouched.
    pub fn sub(&mut self, operand: u16)
        requires
            old(self).inv(),
        ensures
            final(self).inv(),
            old(self).accumulator < operand ==> final(self).accumulator == operand - old(
                self,
            ).accumulator && final(self).negative_flag == true,
            old(self).accumulator >= operand ==> final(self).accumulator == old(self).accumulator
                - operand && final(self).negative_flag == old(self).negative_flag,
            final(self).program_counter == old(self).program_counter,
            final(self).mailbox == old(self).mailbox,
    {
        if self.accumulator < operand {
            self.negative_flag = true;
            self.accumulator = operand - self.accumulator;
        } else {
            self.accumulator = self.accumulator - operand;
        }
    }

    /// MULT semantics on a loaded operand value: the product wraps modulo
    /// 1000 and the negative flag is cleared.
    pub fn mult(&mut self, operand: u16)
        requires
            old(self).inv(),
        ensures
            final(self).inv(),
            final(self).accumulator == spec_wrap(old(self).accumulator * operand),
            final(self).negative_flag == false,
            final(self).program_counter == old(self).program_counter,
            final(self).mailbox == old(self).mailbox,
    {
        proof {
            vstd::arithmetic::mul::lemma_mul_upper_bound(
                self.accumulator as int,
                65535,
                operand as int,
                65535,
            );
        }
        let product: u32 = self.accumulator as u32 * operand as u32;
        self.accumulator = (product % 1000) as u16;
        self.negative_flag = false;
    }

    /// LDA semantics on a loaded operand value.
    pub fn lda(&mut self, operand: u16)
        requires
            old(self).inv(),
        ensures
            final(self).inv(),
            final(self).accumulator == operand,
            final(self).negative_flag == old(self).negative_flag,
            final(self).program_counter == old(self).program_counter,
            final(self).mailbox == old(self).mailbox,
    {
        self.accumulator = operand;
    }

    /// STA semantics: stores the accumulator at a memory address.
    pub fn sta(&mut self, addr: u16)
        requires
            old(self).inv(),
            addr < 100,
        ensures
            final(self).inv(),
            final(self).mailbox@ == old(self).mailbox@.update(
                addr as int,
                old(self).accumulator,
            ),
            final(self).accumulator == old(self).accumulator,
            final(self).program_counter == old(self).program_counter,
            final(self).negative_flag == old(self).negative_flag,
    {
        let acc = self.accumulator;
        self.store(addr, acc);
    }

    /// BRA semantics: an unconditional branch to an absolute address.
    pub fn bra(&mut self, addr: u16)
        requires
            old(self).inv(),
        ensures
            final(self).inv(),
            final(self).program_counter == addr,
            final(self).accumulator == old(self).accumulator,
            final(self).negative_flag == old(self).negative_flag,
            final(self).mailbox == old(self).mailbox,
    {
        self.program_counter = addr;
    }

    /// BRZ semantics: branches only when the accumulator is zero and the
    /// negative flag is clear.
    pub fn brz(&mut self, addr: u16)
        requires
            old(self).inv(),
        ensures
            final(self).inv(),
            final(self).program_counter == (if old(self).accumulator == 0 && !old(
                self,
            ).negative_flag {
                addr
            } else {
                old(self).program_counter
            }),
            final(self).accumulator == old(self).accumulator,
            final(self).negative_flag == old(self).negative_flag,
            final(self).mailbox == old(self).mailbox,
    {
        if self.accumulator == 0 && !self.negative_flag {
            self.program_counter = addr;
        }
    }

    /// The effective operand address of an address-requiring instruction:
    /// the embedded address itself, or — in pointer mode — the word of the
    /// memory cell it points at.
    pub open spec fn spec_eff(self, op: OpCode) -> u16
        recommends
            self.inv(),
            spec_requires_address(op.mnemonic),
            op.address is Some,
            op.address->0 < 100,
    {
        if op.address_type is Pointer {
            self.mailbox@[op.address->0 as int]
        } else {
            op.address->0
        }
    }

    /// Resolves one level of indirection, or none, for an
    /// address-requiring instruction.
    pub fn resolve_effective(&self, op: &OpCode) -> (r: u16)
        requires
            self.inv(),
            spec_requires_address(op.mnemonic),
            op.address is Some,
            op.address->0 < 100,
        ensures
            r == self.spec_eff(*op),
    {
        let a = match op.address {
            Some(a) => a,
            None => 0,
        };
        match op.address_type {
            AddressType::Pointer => self.load(a),
            AddressType::Literal => a,
        }
    }

    /// BRP semantics: branches whenever the negative flag is clear, whatever
    /// the accumulator holds — in particular also when it is exactly zero.
    pub fn brp(&mut self, addr: u16)
        requires
            old(self).inv(),
        ensures
            final(self).inv(),
            final(self).program_counter == (if !old(self).negative_flag {
                addr
            } else {
                old(self).program_counter
            }),
            final(self).accumulator == old(self).accumulator,
            final(self).negative_flag == old(self).negative_flag,
            final(self).mailbox == old(self).mailbox,
    {
        if !self.negative_flag {
            self.program_counter = addr;
        }
    }
}

/// The engine without the stack capability: the fixed memory, the common
/// registers, and the explicit input queue and output logs. PUSH and POP
/// fault as unsupported here.
pub struct Runtime {
    pub common: RuntimeCommon,
    /// Values INP consumes, in order; the cursor marks how many it already
    /// has.
    pub inputs: Vec<u16>,
    pub input_cursor: usize,
    /// Values OUT produced, in order.
    pub outputs: Vec<u16>,
    /// Character values SOUT produced, in order.
    pub char_outputs: Vec<u8>,
}

/// The engine's input and output queues are untouched.
pub open spec fn plain_io_unchanged(pre: Runtime, post: Runtime) -> bool {
    &&& post.inputs == pre.inputs
    &&& post.input_cursor == pre.input_cursor
    &&& post.outputs == pre.outputs
    &&& post.char_outputs == pre.char_outputs
}

/// The machine registers and memory are untouched.
pub open spec fn plain_machine_unchanged(pre: Runtime, post: Runtime) -> bool {
    &&& post.common.accumulator == pre.common.accumulator
    &&& post.common.program_counter == pre.common.program_counter
    &&& post.common.negative_flag == pre.common.negative_flag
    &&& post.common.mailbox == pre.common.mailbox
}

/// The cycle faulted: nothing changed and the given error is reported.
pub open spec fn plain_fault(pre: Runtime, post: Runtime, s: RuntimeState, e: RuntimeError) -> bool {
    &&& plain_machine_unchanged(pre, post)
    &&& plain_io_unchanged(pre, post)
    &&& s == RuntimeState::Error(e)
}

/// What executing one already-decoded instruction does, with the program
/// counter already known to be in range.
pub open spec fn plain_exec(
    pre: Runtime,
    post: Runtime,
    s: RuntimeState,
    pc: u16,
    raw: u16,
    op: OpCode,
) -> bool
    recommends
        pre.common.inv(),
        pc == pre.common.program_counter,
        pc < 100,
        raw == pre.common.mailbox@[pc as int],
        spec_decode(raw) == Ok::<OpCode, crate::opcodes::OpCodeError>(op),
{
    let pc1 = (pc + 1) as u16;
    let mem = pre.common.mailbox@;
    let acc = pre.common.accumulator;
    let flag = pre.common.negative_flag;
    let eff = pre.common.spec_eff(op);
    match op.mnemonic {
        MnemonicType::ADD => if eff >= 100 {
            plain_fault(pre, post, s, RuntimeError::AddressOutOfBounds(eff))
        } else {
            &&& post.common.accumulator == spec_wrap(acc + mem[eff as int])
            &&& post.common.negative_flag == false
            &&& post.common.program_counter == pc1
            &&& post.common.mailbox == pre.common.mailbox
            &&& plain_io_unchanged(pre, post)
            &&& s == RuntimeState::Running
        },
        MnemonicType::SUB => if eff >= 100 {
            plain_fault(pre, post, s, RuntimeError::AddressOutOfBounds(eff))
        } else {
            let m = mem[eff as int];
            &&& (acc < m ==> post.common.accumulator == m - acc && post.common.negative_flag
                == true)
            &&& (acc >= m ==> post.common.accumulator == acc - m && post.common.negative_flag
                == flag)
            &&& post.common.program_counter == pc1
            &&& post.common.mailbox == pre.common.mailbox
            &&& plain_io_unchanged(pre, post)
            &&& s == RuntimeState::Running
        },
        MnemonicType::MULT => if eff >= 100 {
            plain_fault(pre, post, s, RuntimeError::AddressOutOfBounds(eff))
        } else {
            &&& post.common.accumulator == spec_wrap(acc * mem[eff as int])
            &&& post.common.negative_flag == false
            &&& post.common.program_counter == pc1
            &&& post.common.mailbox == pre.common.mailbox
            &&& plain_io_unchanged(pre, post)
            &&& s == RuntimeState::Running
        },
        MnemonicType::STA => if eff >= 100 {
            plain_fault(pre, post, s, RuntimeError::AddressOutOfBounds(eff))
        } else {
            &&& post.common.mailbox@ == mem.update(eff as int, acc)
            &&& post.common.accumulator == acc
            &&& post.common.negative_flag == flag
            &&& post.common.program_counter == pc1
            &&& plain_io_unchanged(pre, post)
            &&& s == RuntimeState::Running
        },
        MnemonicType::LDA => if eff >= 100 {
            plain_fault(pre, post, s, RuntimeError::AddressOutOfBounds(eff))
        } else {
            &&& post.common.accumulator == mem[eff as int]
            &&& post.common.negative_flag == flag
            &&& post.common.program_counter == pc1
            &&& post.common.mailbox == pre.common.mailbox
            &&& plain_io_unchanged(pre, post)
            &&& s == RuntimeState::Running
        },
        MnemonicType::BRA => {
            &&& post.common.program_counter == eff
            &&& post.common.accumulator == acc
            &&& post.common.negative_flag == flag
            &&& post.common.mailbox == pre.common.mailbox
            &&& plain_io_unchanged(pre, post)
            &&& s == RuntimeState::Running
        },
        MnemonicType::BRZ => {
            &&& post.common.program_counter == (if acc == 0 && !flag {
                eff
            } else {
                pc1
            })
            &&& post.common.accumulator == acc
            &&& post.common.negative_flag == flag
            &&& post.common.mailbox == pre.common.mailbox
            &&& plain_io_unchanged(pre, post)
            &&& s == RuntimeState::Running
        },
        MnemonicType::BRP => {
            &&& post.common.program_counter == (if !flag {
                eff
            } else {
                pc1
            })
            &&& post.common.accumulator == acc
            &&& post.common.negative_flag == flag
            &&& post.common.mailbox == pre.common.mailbox
            &&& plain_io_unchanged(pre, post)
            &&& s == RuntimeState::Running
        },
        MnemonicType::INP => if pre.input_cursor < pre.inputs@.len() {
            &&& post.common.accumulator == pre.inputs@[pre.input_cursor as int]
            &&& post.common.negative_flag == flag
            &&& post.common.program_counter == pc1
            &&& post.common.mailbox == pre.common.mailbox
            &&& post.inputs == pre.inputs
            &&& post.input_cursor == pre.input_cursor + 1
            &&& post.outputs == pre.outputs
            &&& post.char_outputs == pre.char_outputs
            &&& s == RuntimeState::Running
        } else {
            &&& plain_machine_unchanged(pre, post)
            &&& plain_io_unchanged(pre, post)
            &&& s == RuntimeState::AwaitingInput
        },
        MnemonicType::OUT => {
            &&& post.outputs@ == pre.outputs@.push(acc)
            &&& post.inputs == pre.inputs
            &&& post.input_cursor == pre.input_cursor
            &&& post.char_outputs == pre.char_outputs
            &&& post.common.accumulator == acc
            &&& post.common.negative_flag == flag
            &&& post.common.program_counter == pc1
            &&& post.common.mailbox == pre.common.mailbox
            &&& s == RuntimeState::Running
        },
        MnemonicType::SOUT => if acc > 255 {
            plain_fault(pre, post, s, RuntimeError::InvalidCharacter(acc))
        } else {
            &&& post.char_outputs@ == pre.char_outputs@.push(acc as u8)
            &&& post.inputs == pre.inputs
            &&& post.input_cursor == pre.input_cursor
            &&& post.outputs == pre.outputs
            &&& post.common.accumulator == acc
            &&& post.common.negative_flag == flag
            &&& post.common.program_counter == pc1
            &&& post.common.mailbox == pre.common.mailbox
            &&& s == RuntimeState::Running
        },
        MnemonicType::HLT | MnemonicType::COB | MnemonicType::DAT => {
            &&& post.common.program_counter == pc1
            &&& post.common.accumulator == acc
            &&& post.common.negative_flag == flag
            &&& post.common.mailbox == pre.common.mailbox
            &&& plain_io_unchanged(pre, post)
            &&& s == RuntimeState::Halted
        },
        MnemonicType::PUSH | MnemonicType::POP => plain_fault(
            pre,
            post,
            s,
            RuntimeError::UnsupportedInstruction(pc, raw),
        ),
    }
}

/// A run of at most `fuel` cycles of the stackless engine: step follows
/// step as long as the machine stays `Running`, and the final state is
/// `Running` only if the fuel ran out first.
pub open spec fn plain_runs(pre: Runtime, post: Runtime, s: RuntimeState, fuel: nat) -> bool
    decreases fuel,
{
    if fuel == 0 {
        post == pre && s == RuntimeState::Running
    } else {
        exists|mid: Runtime, s1: RuntimeState|
            #[trigger] plain_step(pre, mid, s1) && if s1 is Running {
                plain_runs(mid, post, s, (fuel - 1) as nat)
            } else {
                post == mid && s == s1
            }
    }
}

/// One full cycle of the stackless engine: fetch, decode, execute.
pub open spec fn plain_step(pre: Runtime, post: Runtime, s: RuntimeState) -> bool
    recommends
        pre.inv(),
{
    let pc = pre.common.program_counter;
    if pc >= 100 {
        plain_fault(pre, post, s, RuntimeError::AddressOutOfBounds(pc))
    } else {
        let raw = pre.common.mailbox@[pc as int];
        match spec_decode(raw) {
            Err(_) => plain_fault(pre, post, s, RuntimeError::InvalidInstruction(pc, raw)),
            Ok(op) => plain_exec(pre, post, s, pc, raw, op),
        }
    }
}

/// A step appended to a run of the stackless engine extends it by one
/// cycle.
pub proof fn lemma_plain_runs_step(a: Runtime, b: Runtime, c: Runtime, s1: RuntimeState, n: nat)
    requires
        plain_runs(a, b, RuntimeState::Running, n),
        plain_step(b, c, s1),
    ensures
        plain_runs(
            a,
            c,
            if s1 is Running {
                RuntimeState::Running
            } else {
                s1
            },
            n + 1,
        ),
    decreases n,
{
    let target = if s1 is Running {
        RuntimeState::Running
    } else {
        s1
    };
    if n == 0 {
        assert(b == a);
        assert(plain_step(a, c, s1) && if s1 is Running {
            plain_runs(c, c, RuntimeState::Running, 0)
        } else {
            c == c && target == s1
        });
    } else {
        let (mid, s0): (Runtime, RuntimeState) = choose|mid: Runtime, s0: RuntimeState|
            #[trigger] plain_step(a, mid, s0) && if s0 is Running {
                plain_runs(mid, b, RuntimeState::Running, (n - 1) as nat)
            } else {
                b == mid && RuntimeState::Running == s0
            };
        assert(s0 is Running);
        lemma_plain_runs_step(mid, b, c, s1, (n - 1) as nat);
        assert(plain_step(a, mid, s0) && plain_runs(mid, c, target, n));
    }
}

impl Runtime {
    pub open spec fn inv(&self) -> bool {
        &&& self.common.inv()
        &&& self.input_cursor <= self.inputs@.len()
    }

    /// A fresh engine over a program image, with nothing input or output
    /// yet.
    pub fn new(mailbox: Mailbox) -> (r: Runtime)
        requires
            mailbox.inv(),
        ensures
            r.inv(),
            r.common.accumulator == 0,
            r.common.program_counter == 0,
            r.common.negative_flag == false,
            r.common.mailbox == mailbox,
            r.inputs@.len() == 0,
            r.input_cursor == 0,
            r.outputs@.len() == 0,
            r.char_outputs@.len() == 0,
    {
        Runtime {
            common: RuntimeCommon::new(mailbox),
            inputs: Vec::new(),
            input_cursor: 0,
            outputs: Vec::new(),
            char_outputs: Vec::new(),
        }
    }

    /// Queues one more value for INP to consume.
    pub fn push_input(&mut self, value: u16)
        requires
            old(self).inv(),
            old(self).inputs@.len() < usize::MAX,
        ensures
            final(self).inv(),
            final(self).inputs@ == old(self).inputs@.push(value),
            final(self).input_cursor == old(self).input_cursor,
            final(self).common == old(self).common,
            final(self).outputs == old(self).outputs,
            final(self).char_outputs == old(self).char_outputs,
    {
        self.inputs.push(value);
    }

    /// Fetches, decodes and executes the instruction at the program
    /// counter: one full cycle, or a fault or input wait with no effect.
    pub fn evaluate_current(&mut self) -> (s: RuntimeState)
        requires
            old(self).inv(),
        ensures
            final(self).inv(),
            plain_step(*old(self), *final(self), s),
    {
        let pc = self.common.program_counter;
        if pc >= 100 {
            return RuntimeState::Error(RuntimeError::AddressOutOfBounds(pc));
        }
        let raw = self.common.load(pc);
        let decoded = OpCode::try_from(raw);
        let op = match decoded {
            Ok(op) => op,
            Err(_) => {
                return RuntimeState::Error(RuntimeError::InvalidInstruction(pc, raw));
            },
        };
        proof {
            crate::opcodes::lemma_decode_wf(raw);
        }
        match op.mnemonic {
            MnemonicType::ADD => {
                let eff = self.common.resolve_effective(&op);
                if eff >= 100 {
                    return RuntimeState::Error(RuntimeError::AddressOutOfBounds(eff));
                }
                let v = self.common.load(eff);
                self.common.program_counter = pc + 1;
                self.common.add(v);
                RuntimeState::Running
            },
            MnemonicType::SUB => {
                let eff = self.common.resolve_effective(&op);
                if eff >= 100 {
                    return RuntimeState::Error(RuntimeError::AddressOutOfBounds(eff));
                }
                let v = self.common.load(eff);
                self.common.program_counter = pc + 1;
                self.common.sub(v);
                RuntimeState::Running
            },
            MnemonicType::MULT => {
                let eff = self.common.resolve_effective(&op);
                if eff >= 100 {
                    return RuntimeState::Error(RuntimeError::AddressOutOfBounds(eff));
                }
                let v = self.common.load(eff);
                self.common.program_counter = pc + 1;
                self.common.mult(v);
                RuntimeState::Running
            },
            MnemonicType::STA => {
                let eff = self.common.resolve_effective(&op);
                if eff >= 100 {
                    return RuntimeState::Error(RuntimeError::AddressOutOfBounds(eff));
                }
                self.common.program_counter = pc + 1;
                self.common.sta(eff);
                RuntimeState::Running
            },
            MnemonicType::LDA => {
                let eff = self.common.resolve_effective(&op);
                if eff >= 100 {
                    return RuntimeState::Error(RuntimeError::AddressOutOfBounds(eff));
                }
                let v = self.common.load(eff);
                self.common.program_counter = pc + 1;
                self.common.lda(v);
                RuntimeState::Running
            },
            MnemonicType::BRA => {
                let eff = self.common.resolve_effective(&op);
                self.common.program_counter = pc + 1;
                self.common.bra(eff);
                RuntimeState::Running
            },
            MnemonicType::BRZ => {
                let eff = self.common.resolve_effective(&op);
                self.common.program_counter = pc + 1;
                self.common.brz(eff);
                RuntimeState::Running
            },
            MnemonicType::BRP => {
                let eff = self.common.resolve_effective(&op);
                self.common.program_counter = pc + 1;
                self.common.brp(eff);
                RuntimeState::Running
            },
            MnemonicType::INP => {
                if self.input_cursor < self.inputs.len() {
                    let v = self.inputs[self.input_cursor];
                    self.input_cursor = self.input_cursor + 1;
                    self.common.program_counter = pc + 1;
                    self.common.lda(v);
                    RuntimeState::Running
                } else {
                    RuntimeState::AwaitingInput
                }
            },
            MnemonicType::OUT => {
                let acc = self.common.accumulator;
                self.outputs.push(acc);
                self.common.program_counter = pc + 1;
                RuntimeState::Running
            },
            MnemonicType::SOUT => {
                let acc = self.common.accumulator;
                if acc > 255 {
                    return RuntimeState::Error(RuntimeError::InvalidCharacter(acc));
                }
                self.char_outputs.push(acc as u8);
                self.common.program_counter = pc + 1;
                RuntimeState::Running
            },
            MnemonicType::HLT | MnemonicType::COB | MnemonicType::DAT => {
                self.common.program_counter = pc + 1;
                RuntimeState::Halted
            },
            MnemonicType::PUSH | MnemonicType::POP => {
                RuntimeState::Error(RuntimeError::UnsupportedInstruction(pc, raw))
            },
        }
    }

    /// Runs cycles until the machine is no longer running — a halt, a
    /// fault, or a wait for input — or until the cycle budget is spent, in
    /// which case the machine is still `Running` and `start` can simply be
    /// called again.
    pub fn start(&mut self, max_cycles: u64) -> (s: RuntimeState)
        requires
            old(self).inv(),
        ensures
            final(self).inv(),
            exists|fuel: nat|
                fuel <= max_cycles && #[trigger] plain_runs(*old(self), *final(self), s, fuel) && (
                s is Running ==> fuel == max_cycles),
    {
        let mut remaining = max_cycles;
        let ghost mut spent: nat = 0;
        loop
            invariant
                self.inv(),
                remaining <= max_cycles,
                spent == max_cycles - remaining,
                plain_runs(*old(self), *self, RuntimeState::Running, spent),
            decreases remaining,
        {
            if remaining == 0 {
                return RuntimeState::Running;
            }
            remaining = remaining - 1;
            let ghost pre_step = *self;
            let s = self.evaluate_current();
            proof {
                lemma_plain_runs_step(*old(self), pre_step, *self, s, spent);
                spent = spent + 1;
            }
            if !s.is_running() {
                return s;
            }
        }
    }

    /// The raw word at the program counter together with its decoding, for
    /// a debugger to show.
    pub fn get_current_instruction(&self) -> (r: (Option<OpCode>, u16))
        requires
            self.inv(),
            self.common.program_counter < 100,
        ensures
            r.1 == self.common.mailbox@[self.common.program_counter as int],
            r.0 == (match spec_decode(r.1) {
                Ok(op) => Some(op),
                Err(_) => None::<OpCode>,
            }),
    {
        let literal = self.common.load(self.common.program_counter);
        match OpCode::try_from(literal) {
            Ok(op) => (Some(op), literal),
            Err(_) => (None, literal),
        }
    }

    pub fn get_mailbox(&self) -> (r: &Mailbox)
        ensures
            *r == self.common.mailbox,
    {
        &self.common.mailbox
    }

    pub fn get_program_counter(&self) -> (r: &u16)
        ensures
            *r == self.common.program_counter,
    {
        &self.common.program_counter
    }

    pub fn get_accumulator(&self) -> (r: &u16)
        ensures
            *r == self.common.accumulator,
    {
        &self.common.accumulator
    }

    pub fn get_negative_flag(&self) -> (r: &bool)
        ensures
            *r == self.common.negative_flag,
    {
        &self.common.negative_flag
    }

    pub fn get_outputs(&self) -> (r: &Vec<u16>)
        ensures
            *r == self.outputs,
    {
        &self.outputs
    }

    pub fn get_char_outputs(&self) -> (r: &Vec<u8>)
        ensures
            *r == self.char_outputs,
    {
        &self.char_outputs
    }
}

/// Where the stack pointer starts: five cells below the top of the 100-word
/// space, growing downward.
pub const STACK_START: u16 = 95;

/// The engine with the optional stack discipline layered on the flat
/// memory. Besides the stack pointer it adds two virtual registers to the
/// address space: address 98 reads and writes the accumulator, address 99
/// the stack pointer; all other addresses reach the mailbox as usual.
pub struct StackedRuntime {
    pub common: RuntimeCommon,
    pub stack_pointer: u16,
    /// Values INP consumes, in order; the cursor marks how many it already
    /// has.
    pub inputs: Vec<u16>,
    pub input_cursor: usize,
    /// Values OUT produced, in order.
    pub outputs: Vec<u16>,
    /// Character values SOUT produced, in order.
    pub char_outputs: Vec<u8>,
}

/// The engine's input and output queues are untouched.
pub open spec fn stacked_io_unchanged(pre: StackedRuntime, post: StackedRuntime) -> bool {
    &&& post.inputs == pre.inputs
    &&& post.input_cursor == pre.input_cursor
    &&& post.outputs == pre.outputs
    &&& post.char_outputs == pre.char_outputs
}

/// The machine registers, stack pointer and memory are untouched.
pub open spec fn stacked_machine_unchanged(pre: StackedRuntime, post: StackedRuntime) -> bool {
    &&& post.common.accumulator == pre.common.accumulator
    &&& post.common.program_counter == pre.common.program_counter
    &&& post.common.negative_flag == pre.common.negative_flag
    &&& post.common.mailbox == pre.common.mailbox
    &&& post.stack_pointer == pre.stack_pointer
}

/// The cycle faulted: nothing changed and the given error is reported.
pub open spec fn stacked_fault(
    pre: StackedRuntime,
    post: StackedRuntime,
    s: RuntimeState,
    e: RuntimeError,
) -> bool {
    &&& stacked_machine_unchanged(pre, post)
    &&& stacked_io_unchanged(pre, post)
    &&& s == RuntimeState::Error(e)
}

/// What reading an address yields on the stacked engine: the two virtual
/// registers shadow addresses 98 and 99, all else is the mailbox.
pub open spec fn spec_vload(pre: StackedRuntime, addr: u16) -> u16
    recommends
        addr < 100,
{
    if addr == 99 {
        pre.stack_pointer
    } else if addr == 98 {
        pre.common.accumulator
    } else {
        pre.common.mailbox@[addr as int]
    }
}

/// What writing an address does on the stacked engine: everything else is
/// untouched.
pub open spec fn vstore_post(
    pre: StackedRuntime,
    post: StackedRuntime,
    addr: u16,
    value: u16,
) -> bool
    recommends
        addr < 100,
{
    if addr == 99 {
        &&& post.stack_pointer == value
        &&& post.common.accumulator == pre.common.accumulator
        &&& post.common.mailbox == pre.common.mailbox
    } else if addr == 98 {
        &&& post.stack_pointer == pre.stack_pointer
        &&& post.common.accumulator == value
        &&& post.common.mailbox == pre.common.mailbox
    } else {
        &&& post.stack_pointer == pre.stack_pointer
        &&& post.common.accumulator == pre.common.accumulator
        &&& post.common.mailbox@ == pre.common.mailbox@.update(addr as int, value)
    }
}

/// What one push does: the stack pointer moves down one cell and the value
/// lands there; nothing else changes.
pub open spec fn push_post(pre: StackedRuntime, post: StackedRuntime, value: u16) -> bool
    recommends
        1 <= pre.stack_pointer <= 100,
{
    &&& post.stack_pointer == pre.stack_pointer - 1
    &&& post.common.mailbox@ == pre.common.mailbox@.update(pre.stack_pointer - 1, value)
    &&& post.common.accumulator == pre.common.accumulator
    &&& post.common.program_counter == pre.common.program_counter
    &&& post.common.negative_flag == pre.common.negative_flag
    &&& stacked_io_unchanged(pre, post)
}

/// What one pop does: the value at the stack pointer comes back and the
/// pointer moves up one cell; nothing else changes.
pub open spec fn pop_post(pre: StackedRuntime, post: StackedRuntime, r: u16) -> bool
    recommends
        pre.stack_pointer < 100,
{
    &&& r == pre.common.mailbox@[pre.stack_pointer as int]
    &&& post.stack_pointer == pre.stack_pointer + 1
    &&& post.common.mailbox == pre.common.mailbox
    &&& post.common.accumulator == pre.common.accumulator
    &&& post.common.program_counter == pre.common.program_counter
    &&& post.common.negative_flag == pre.common.negative_flag
    &&& stacked_io_unchanged(pre, post)
}

/// What executing one already-decoded instruction does on the stacked
/// engine, with the program counter already known to be in range.
pub open spec fn stacked_exec(
    pre: StackedRuntime,
    post: StackedRuntime,
    s: RuntimeState,
    pc: u16,
    raw: u16,
    op: OpCode,
) -> bool
    recommends
        pre.common.inv(),
        pc == pre.common.program_counter,
        pc < 100,
        raw == pre.common.mailbox@[pc as int],
        spec_decode(raw) == Ok::<OpCode, crate::opcodes::OpCodeError>(op),
{
    let pc1 = (pc + 1) as u16;
    let acc = pre.common.accumulator;
    let flag = pre.common.negative_flag;
    let sp = pre.stack_pointer;
    let eff = if op.address_type is Pointer {
        spec_vload(pre, op.address->0)
    } else {
        op.address->0
    };
    match op.mnemonic {
        MnemonicType::ADD => if eff >= 100 {
            stacked_fault(pre, post, s, RuntimeError::AddressOutOfBounds(eff))
        } else {
            &&& post.common.accumulator == spec_wrap(acc + spec_vload(pre, eff))
            &&& post.common.negative_flag == false
            &&& post.common.program_counter == pc1
            &&& post.common.mailbox == pre.common.mailbox
            &&& post.stack_pointer == sp
            &&& stacked_io_unchanged(pre, post)
            &&& s == RuntimeState::Running
        },
        MnemonicType::SUB => if eff >= 100 {
            stacked_fault(pre, post, s, RuntimeError::AddressOutOfBounds(eff))
        } else {
            let m = spec_vload(pre, eff);
            &&& (acc < m ==> post.common.accumulator == m - acc && post.common.negative_flag
                == true)
            &&& (acc >= m ==> post.common.accumulator == acc - m && post.common.negative_flag
                == flag)
            &&& post.common.program_counter == pc1
            &&& post.common.mailbox == pre.common.mailbox
            &&& post.stack_pointer == sp
            &&& stacked_io_unchanged(pre, post)
            &&& s == RuntimeState::Running
        },
        MnemonicType::MULT => if eff >= 100 {
            stacked_fault(pre, post, s, RuntimeError::AddressOutOfBounds(eff))
        } else {
            &&& post.common.accumulator == spec_wrap(acc * spec_vload(pre, eff))
            &&& post.common.negative_flag == false
            &&& post.common.program_counter == pc1
            &&& post.common.mailbox == pre.common.mailbox
            &&& post.stack_pointer == sp
            &&& stacked_io_unchanged(pre, post)
            &&& s == RuntimeState::Running
        },
        MnemonicType::STA => if eff >= 100 {
            stacked_fault(pre, post, s, RuntimeError::AddressOutOfBounds(eff))
        } else {
            &&& vstore_post(pre, post, eff, acc)
            &&& post.common.negative_flag == flag
            &&& post.common.program_counter == pc1
            &&& stacked_io_unchanged(pre, post)
            &&& s == RuntimeState::Running
        },
        MnemonicType::LDA => if eff >= 100 {
            stacked_fault(pre, post, s, RuntimeError::AddressOutOfBounds(eff))
        } else {
            &&& post.common.accumulator == spec_vload(pre, eff)
            &&& post.common.negative_flag == flag
            &&& post.common.program_counter == pc1
            &&& post.common.mailbox == pre.common.mailbox
            &&& post.stack_pointer == sp
            &&& stacked_io_unchanged(pre, post)
            &&& s == RuntimeState::Running
        },
        MnemonicType::BRA => {
            &&& post.common.program_counter == eff
            &&& post.common.accumulator == acc
            &&& post.common.negative_flag == flag
            &&& post.common.mailbox == pre.common.mailbox
            &&& post.stack_pointer == sp
            &&& stacked_io_unchanged(pre, post)
            &&& s == RuntimeState::Running
        },
        MnemonicType::BRZ => {
            &&& post.common.program_counter == (if acc == 0 && !flag {
                eff
            } else {
                pc1
            })
            &&& post.common.accumulator == acc
            &&& post.common.negative_flag == flag
            &&& post.common.mailbox == pre.common.mailbox
            &&& post.stack_pointer == sp
            &&& stacked_io_unchanged(pre, post)
            &&& s == RuntimeState::Running
        },
        MnemonicType::BRP => {
            &&& post.common.program_counter == (if !flag {
                eff
            } else {
                pc1
            })
            &&& post.common.accumulator == acc
            &&& post.common.negative_flag == flag
            &&& post.common.mailbox == pre.common.mailbox
            &&& post.stack_pointer == sp
            &&& stacked_io_unchanged(pre, post)
            &&& s == RuntimeState::Running
        },
        MnemonicType::INP => if pre.input_cursor < pre.inputs@.len() {
            &&& post.common.accumulator == pre.inputs@[pre.input_cursor as int]
            &&& post.common.negative_flag == flag
            &&& post.common.program_counter == pc1
            &&& post.common.mailbox == pre.common.mailbox
            &&& post.stack_pointer == sp
            &&& post.inputs == pre.inputs
            &&& post.input_cursor == pre.input_cursor + 1
            &&& post.outputs == pre.outputs
            &&& post.char_outputs == pre.char_outputs
            &&& s == RuntimeState::Running
        } else {
            &&& stacked_machine_unchanged(pre, post)
            &&& stacked_io_unchanged(pre, post)
            &&& s == RuntimeState::AwaitingInput
        },
        MnemonicType::OUT => {
            &&& post.outputs@ == pre.outputs@.push(acc)
            &&& post.inputs == pre.inputs
            &&& post.input_cursor == pre.input_cursor
            &&& post.char_outputs == pre.char_outputs
            &&& post.common.accumulator == acc
            &&& post.common.negative_flag == flag
            &&& post.common.program_counter == pc1
            &&& post.common.mailbox == pre.common.mailbox
            &&& post.stack_pointer == sp
            &&& s == RuntimeState::Running
        },
        MnemonicType::SOUT => if acc > 255 {
            stacked_fault(pre, post, s, RuntimeError::InvalidCharacter(acc))
        } else {
            &&& post.char_outputs@ == pre.char_outputs@.push(acc as u8)
            &&& post.inputs == pre.inputs
            &&& post.input_cursor == pre.input_cursor
            &&& post.outputs == pre.outputs
            &&& post.common.accumulator == acc
            &&& post.common.negative_flag == flag
            &&& post.common.program_counter == pc1
            &&& post.common.mailbox == pre.common.mailbox
            &&& post.stack_pointer == sp
            &&& s == RuntimeState::Running
        },
        MnemonicType::HLT | MnemonicType::COB | MnemonicType::DAT => {
            &&& post.common.program_counter == pc1
            &&& post.common.accumulator == acc
            &&& post.common.negative_flag == flag
            &&& post.common.mailbox == pre.common.mailbox
            &&& post.stack_pointer == sp
            &&& stacked_io_unchanged(pre, post)
            &&& s == RuntimeState::Halted
        },
        MnemonicType::PUSH => if sp == 0 || sp > 100 {
            stacked_fault(pre, post, s, RuntimeError::AddressOutOfBounds(sp))
        } else {
            &&& post.stack_pointer == sp - 1
            &&& post.common.mailbox@ == pre.common.mailbox@.update(sp - 1, acc)
            &&& post.common.accumulator == acc
            &&& post.common.negative_flag == flag
            &&& post.common.program_counter == pc1
            &&& stacked_io_unchanged(pre, post)
            &&& s == RuntimeState::Running
        },
        MnemonicType::POP => if sp >= 100 {
            stacked_fault(pre, post, s, RuntimeError::AddressOutOfBounds(sp))
        } else {
            &&& post.common.accumulator == pre.common.mailbox@[sp as int]
            &&& post.stack_pointer == sp + 1
            &&& post.common.mailbox == pre.common.mailbox
            &&& post.common.negative_flag == flag
            &&& post.common.program_counter == pc1
            &&& stacked_io_unchanged(pre, post)
            &&& s == RuntimeState::Running
        },
    }
}

/// One full cycle of the stacked engine: fetch, decode, execute.
pub open spec fn stacked_step(pre: StackedRuntime, post: StackedRuntime, s: RuntimeState) -> bool
    recommends
        pre.inv(),
{
    let pc = pre.common.program_counter;
    if pc >= 100 {
        stacked_fault(pre, post, s, RuntimeError::AddressOutOfBounds(pc))
    } else {
        let raw = pre.common.mailbox@[pc as int];
        match spec_decode(raw) {
            Err(_) => stacked_fault(pre, post, s, RuntimeError::InvalidInstruction(pc, raw)),
            Ok(op) => stacked_exec(pre, post, s, pc, raw, op),
        }
    }
}

/// A run of at most `fuel` cycles of the stacked engine.
pub open spec fn stacked_runs(
    pre: StackedRuntime,
    post: StackedRuntime,
    s: RuntimeState,
    fuel: nat,
) -> bool
    decreases fuel,
{
    if fuel == 0 {
        post == pre && s == RuntimeState::Running
    } else {
        exists|mid: StackedRuntime, s1: RuntimeState|
            #[trigger] stacked_step(pre, mid, s1) && if s1 is Running {
                stacked_runs(mid, post, s, (fuel - 1) as nat)
            } else {
                post == mid && s == s1
            }
    }
}

/// A step appended to a run of the stacked engine extends it by one cycle.
pub proof fn lemma_stacked_runs_step(
    a: StackedRuntime,
    b: StackedRuntime,
    c: StackedRuntime,
    s1: RuntimeState,
    n: nat,
)
    requires
        stacked_runs(a, b, RuntimeState::Running, n),
        stacked_step(b, c, s1),
    ensures
        stacked_runs(
            a,
            c,
            if s1 is Running {
                RuntimeState::Running
            } else {
                s1
            },
            n + 1,
        ),
    decreases n,
{
    let target = if s1 is Running {
        RuntimeState::Running
    } else {
        s1
    };
    if n == 0 {
        assert(b == a);
        assert(stacked_step(a, c, s1) && if s1 is Running {
            stacked_runs(c, c, RuntimeState::Running, 0)
        } else {
            c == c && target == s1
        });
    } else {
        let (mid, s0): (StackedRuntime, RuntimeState) = choose|
            mid: StackedRuntime,
            s0: RuntimeState,
        |
            #[trigger] stacked_step(a, mid, s0) && if s0 is Running {
                stacked_runs(mid, b, RuntimeState::Running, (n - 1) as nat)
            } else {
                b == mid && RuntimeState::Running == s0
            };
        assert(s0 is Running);
        lemma_stacked_runs_step(mid, b, c, s1, (n - 1) as nat);
        assert(stacked_step(a, mid, s0) && stacked_runs(mid, c, target, n));
    }
}

impl StackedRuntime {
    pub open spec fn inv(&self) -> bool {
        &&& self.common.inv()
        &&& self.input_cursor <= self.inputs@.len()
    }

    /// A fresh stacked engine over a program image: registers zeroed, the
    /// stack pointer at its conventional start, nothing input or output yet.
    pub fn new(mailbox: Mailbox) -> (r: StackedRuntime)
        requires
            mailbox.inv(),
        ensures
            r.inv(),
            r.common.accumulator == 0,
            r.common.program_counter == 0,
            r.common.negative_flag == false,
            r.common.mailbox == mailbox,
            r.stack_pointer == STACK_START,
            r.inputs@.len() == 0,
            r.input_cursor == 0,
            r.outputs@.len() == 0,
            r.char_outputs@.len() == 0,
    {
        StackedRuntime {
            common: RuntimeCommon::new(mailbox),
            stack_pointer: STACK_START,
            inputs: Vec::new(),
            input_cursor: 0,
            outputs: Vec::new(),
            char_outputs: Vec::new(),
        }
    }

    /// Queues one more value for INP to consume.
    pub fn push_input(&mut self, value: u16)
        requires
            old(self).inv(),
            old(self).inputs@.len() < usize::MAX,
        ensures
            final(self).inv(),
            final(self).inputs@ == old(self).inputs@.push(value),
            final(self).input_cursor == old(self).input_cursor,
            final(self).common == old(self).common,
            final(self).stack_pointer == old(self).stack_pointer,
            final(self).outputs == old(self).outputs,
            final(self).char_outputs == old(self).char_outputs,
    {
        self.inputs.push(value);
    }

    /// Reads an address through the virtual registers.
    pub fn load(&self, addr: u16) -> (r: u16)
        requires
            self.inv(),
            addr < 100,
        ensures
            r == spec_vload(*self, addr),
    {
        if addr == 99 {
            self.stack_pointer
        } else if addr == 98 {
            self.common.accumulator
        } else {
            self.common.load(addr)
        }
    }

    /// Writes an address through the virtual registers.
    pub fn store(&mut self, addr: u16, value: u16)
        requires
            old(self).inv(),
            addr < 100,
        ensures
            final(self).inv(),
            vstore_post(*old(self), *final(self), addr, value),
            final(self).common.program_counter == old(self).common.program_counter,
            final(self).common.negative_flag == old(self).common.negative_flag,
            stacked_io_unchanged(*old(self), *final(self)),
    {
        if addr == 99 {
            self.stack_pointer = value;
        } else if addr == 98 {
            self.common.accumulator = value;
        } else {
            self.common.store(addr, value);
        }
    }

    /// Moves the stack pointer down one cell and stores the value there.
    pub fn stack_push(&mut self, value: u16)
        requires
            old(self).inv(),
            1 <= old(self).stack_pointer <= 100,
        ensures
            final(self).inv(),
            push_post(*old(self), *final(self), value),
    {
        self.stack_pointer = self.stack_pointer - 1;
        let sp = self.stack_pointer;
        self.common.store(sp, value);
    }

    /// Loads the value at the stack pointer and moves the pointer up one
    /// cell.
    pub fn stack_pop(&mut self) -> (r: u16)
        requires
            old(self).inv(),
            old(self).stack_pointer < 100,
        ensures
            final(self).inv(),
            pop_post(*old(self), *final(self), r),
    {
        let sp = self.stack_pointer;
        let value = self.common.load(sp);
        self.stack_pointer = sp + 1;
        value
    }

    /// Fetches, decodes and executes the instruction at the program
    /// counter: one full cycle, or a fault or input wait with no effect.
    pub fn evaluate_current(&mut self) -> (s: RuntimeState)
        requires
            old(self).inv(),
        ensures
            final(self).inv(),
            stacked_step(*old(self), *final(self), s),
    {
        let pc = self.common.program_counter;
        if pc >= 100 {
            return RuntimeState::Error(RuntimeError::AddressOutOfBounds(pc));
        }
        let raw = self.common.load(pc);
        let decoded = OpCode::try_from(raw);
        let op = match decoded {
            Ok(op) => op,
            Err(_) => {
                return RuntimeState::Error(RuntimeError::InvalidInstruction(pc, raw));
            },
        };
        proof {
            crate::opcodes::lemma_decode_wf(raw);
        }
        match op.mnemonic {
            MnemonicType::ADD => {
                let eff = self.resolve_effective(&op);
                if eff >= 100 {
                    return RuntimeState::Error(RuntimeError::AddressOutOfBounds(eff));
                }
                let v = self.load(eff);
                self.common.program_counter = pc + 1;
                self.common.add(v);
                RuntimeState::Running
            },
            MnemonicType::SUB => {
                let eff = self.resolve_effective(&op);
                if eff >= 100 {
                    return RuntimeState::Error(RuntimeError::AddressOutOfBounds(eff));
                }
                let v = self.load(eff);
                self.common.program_counter = pc + 1;
                self.common.sub(v);
                RuntimeState::Running
            },
            MnemonicType::MULT => {
                let eff = self.resolve_effective(&op);
                if eff >= 100 {
                    return RuntimeState::Error(RuntimeError::AddressOutOfBounds(eff));
                }
                let v = self.load(eff);
                self.common.program_counter = pc + 1;
                self.common.mult(v);
                RuntimeState::Running
            },
            MnemonicType::STA => {
                let eff = self.resolve_effective(&op);
                if eff >= 100 {
                    return RuntimeState::Error(RuntimeError::AddressOutOfBounds(eff));
                }
                let acc = self.common.accumulator;
                self.common.program_counter = pc + 1;
                self.store(eff, acc);
                RuntimeState::Running
            },
            MnemonicType::LDA => {
                let eff = self.resolve_effective(&op);
                if eff >= 100 {
                    return RuntimeState::Error(RuntimeError::AddressOutOfBounds(eff));
                }
                let v = self.load(eff);
                self.common.program_counter = pc + 1;
                self.common.lda(v);
                RuntimeState::Running
            },
            MnemonicType::BRA => {
                let eff = self.resolve_effective(&op);
                self.common.program_counter = pc + 1;
                self.common.bra(eff);
                RuntimeState::Running
            },
            MnemonicType::BRZ => {
                let eff = self.resolve_effective(&op);
                self.common.program_counter = pc + 1;
                self.common.brz(eff);
                RuntimeState::Running
            },
            MnemonicType::BRP => {
                let eff = self.resolve_effective(&op);
                self.common.program_counter = pc + 1;
                self.common.brp(eff);
                RuntimeState::Running
            },
            MnemonicType::INP => {
                if self.input_cursor < self.inputs.len() {
                    let v = self.inputs[self.input_cursor];
                    self.input_cursor = self.input_cursor + 1;
                    self.common.program_counter = pc + 1;
                    self.common.lda(v);
                    RuntimeState::Running
                } else {
                    RuntimeState::AwaitingInput
                }
            },
            MnemonicType::OUT => {
                let acc = self.common.accumulator;
                self.outputs.push(acc);
                self.common.program_counter = pc + 1;
                RuntimeState::Running
            },
            MnemonicType::SOUT => {
                let acc = self.common.accumulator;
                if acc > 255 {
                    return RuntimeState::Error(RuntimeError::InvalidCharacter(acc));
                }
                self.char_outputs.push(acc as u8);
                self.common.program_counter = pc + 1;
                RuntimeState::Running
            },
            MnemonicType::HLT | MnemonicType::COB | MnemonicType::DAT => {
                self.common.program_counter = pc + 1;
                RuntimeState::Halted
            },
            MnemonicType::PUSH => {
                let sp = self.stack_pointer;
                if sp == 0 || sp > 100 {
                    return RuntimeState::Error(RuntimeError::AddressOutOfBounds(sp));
                }
                let acc = self.common.accumulator;
                self.common.program_counter = pc + 1;
                self.stack_push(acc);
                RuntimeState::Running
            },
            MnemonicType::POP => {
                let sp = self.stack_pointer;
                if sp >= 100 {
                    return RuntimeState::Error(RuntimeError::AddressOutOfBounds(sp));
                }
                self.common.program_counter = pc + 1;
                let v = self.stack_pop();
                self.common.lda(v);
                RuntimeState::Running
            },
        }
    }

    /// Resolves one level of indirection, or none, through the virtual
    /// registers.
    fn resolve_effective(&self, op: &OpCode) -> (r: u16)
        requires
            self.inv(),
            spec_requires_address(op.mnemonic),
            op.address is Some,
            op.address->0 < 100,
        ensures
            r == (if op.address_type is Pointer {
                spec_vload(*self, op.address->0)
            } else {
                op.address->0
            }),
    {
        let a = match op.address {
            Some(a) => a,
            None => 0,
        };
        match op.address_type {
            AddressType::Pointer => self.load(a),
            AddressType::Literal => a,
        }
    }

    /// Runs cycles until the machine is no longer running — a halt, a
    /// fault, or a wait for input — or until the cycle budget is spent, in
    /// which case the machine is still `Running` and `start` can simply be
    /// called again.
    pub fn start(&mut self, max_cycles: u64) -> (s: RuntimeState)
        requires
            old(self).inv(),
        ensures
            final(self).inv(),
            exists|fuel: nat|
                fuel <= max_cycles && #[trigger] stacked_runs(*old(self), *final(self), s, fuel)
                    && (s is Running ==> fuel == max_cycles),
    {
        let mut remaining = max_cycles;
        let ghost mut spent: nat = 0;
        loop
            invariant
                self.inv(),
                remaining <= max_cycles,
                spent == max_cycles - remaining,
                stacked_runs(*old(self), *self, RuntimeState::Running, spent),
            decreases remaining,
        {
            if remaining == 0 {
                return RuntimeState::Running;
            }
            remaining = remaining - 1;
            let ghost pre_step = *self;
            let s = self.evaluate_current();
            proof {
                lemma_stacked_runs_step(*old(self), pre_step, *self, s, spent);
                spent = spent + 1;
            }
            if !s.is_running() {
                return s;
            }
        }
    }

    pub fn get_mailbox(&self) -> (r: &Mailbox)
        ensures
            *r == self.common.mailbox,
    {
        &self.common.mailbox
    }

    pub fn get_outputs(&self) -> (r: &Vec<u16>)
        ensures
            *r == self.outputs,
    {
        &self.outputs
    }

    pub fn get_char_outputs(&self) -> (r: &Vec<u8>)
        ensures
            *r == self.char_outputs,
    {
        &self.char_outputs
    }
}

/// The stack is last-in first-out: pushing three values and popping three
/// times yields them in reverse order, and the stack pointer returns to its
/// starting cell.
pub proof fn lemma_stack_lifo(
    s0: StackedRuntime,
    s1: StackedRuntime,
    s2: StackedRuntime,
    s3: StackedRuntime,
    s4: StackedRuntime,
    s5: StackedRuntime,
    s6: StackedRuntime,
    v1: u16,
    v2: u16,
    v3: u16,
    r1: u16,
    r2: u16,
    r3: u16,
)
    requires
        s0.inv(),
        3 <= s0.stack_pointer <= 100,
        push_post(s0, s1, v1),
        push_post(s1, s2, v2),
        push_post(s2, s3, v3),
        pop_post(s3, s4, r1),
        pop_post(s4, s5, r2),
        pop_post(s5, s6, r3),
    ensures
        r1 == v3,
        r2 == v2,
        r3 == v1,
        s6.stack_pointer == s0.stack_pointer,
{
}

} // verus!
