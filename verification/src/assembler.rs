//! The second assembly pass: consumes the lexer's structured lines and label
//! table, resolves each operand, and emits one encoded instruction per call,
//! writing its numeric form into the memory image at the line's own index.
//!
//! Resolution reads only the completed label table from the first pass, so a
//! forward reference — a label defined after its first use in source order —
//! resolves exactly as a backward one does.

use vstd::prelude::*;

use crate::error::{info_matches, AssemblerError, ErrorInfo};
use crate::lexer::{
    clone_bytes, spec_lookup, LabelLookup, LineStructure, RegisterName, RightField,
};
use crate::mailbox::Mailbox;
use crate::opcodes::{
    requires_address, spec_encode_of_mnemonic, spec_requires_address, spec_try_from_mnemonic,
    AddressType, OpCode,
};

verus! {

/// What one step of the second pass yields: an encoded instruction, a
/// diagnostic, or the end of the line list.
pub enum State<T, E> {
    Item(T),
    Failed(E),
    Done,
}

/// The memory address a virtual register name stands for.
pub open spec fn spec_register_addr(reg: RegisterName) -> u16 {
    match reg {
        RegisterName::StackPointer => 99,
        RegisterName::Accumulator => 98,
    }
}

fn register_address(reg: &RegisterName) -> (r: u16)
    ensures
        r == spec_register_addr(*reg),
{
    match reg {
        RegisterName::StackPointer => 99,
        RegisterName::Accumulator => 98,
    }
}

/// The address and addressing mode an operand resolves to against a label
/// table, or nothing for an unbound label reference.
pub open spec fn spec_right_addr(rf: RightField, table: Seq<(Seq<u8>, u16)>) -> Option<
    (u16, AddressType),
> {
    match rf {
        RightField::Literal(v) => Some((v, AddressType::Literal)),
        RightField::LiteralPointer(v) => Some((v, AddressType::Pointer)),
        RightField::Register(reg) => Some((spec_register_addr(reg), AddressType::Literal)),
        RightField::RegisterPointer(reg) => Some((spec_register_addr(reg), AddressType::Pointer)),
        RightField::Label(l) => match spec_lookup(table, l@) {
            Some(a) => Some((a, AddressType::Literal)),
            None => None,
        },
        RightField::LabelPointer(l) => match spec_lookup(table, l@) {
            Some(a) => Some((a, AddressType::Pointer)),
            None => None,
        },
    }
}

/// The name an operand's label reference carries.
pub open spec fn spec_label_name(rf: RightField) -> Seq<u8> {
    match rf {
        RightField::Label(l) => l@,
        RightField::LabelPointer(l) => l@,
        _ => Seq::empty(),
    }
}

/// A structured line the second pass can work on: at least one of its three
/// parts is present.
pub open spec fn wf_line(ls: LineStructure) -> bool {
    !(ls.left is None && ls.instruction is None && ls.right is None)
}

/// The second pass over the lexer's output.
pub struct Assembler {
    pub line_structure: Vec<Option<LineStructure>>,
    pub table_lookup: LabelLookup,
    pub current_line: u16,
}

/// Everything `parse_line` does in one call: which instruction or diagnostic
/// comes back for the line at the cursor, and how the cursor and the label
/// table move.
pub open spec fn parse_line_post(pre: Assembler, post: Assembler, r: State<
    OpCode,
    AssemblerError,
>) -> bool {
    let i = pre.current_line as int;
    &&& post.line_structure == pre.line_structure
    &&& if i >= pre.line_structure@.len() {
        &&& r is Done
        &&& post.current_line == pre.current_line
        &&& post.table_lookup.model() == pre.table_lookup.model()
    } else {
        &&& post.current_line == pre.current_line + 1
        &&& match pre.line_structure@[i] {
            None => r is Done && post.table_lookup.model() == pre.table_lookup.model(),
            Some(ls) => match ls.instruction {
                Some(instr) => match ls.right {
                    Some(right) => {
                        &&& post.table_lookup.model() == pre.table_lookup.model()
                        &&& match spec_right_addr(right.value, pre.table_lookup.model()) {
                            Some((addr, at)) => if spec_requires_address(instr.value) && addr
                                >= 100 {
                                r matches State::Failed(
                                    AssemblerError::OperandOutOfRange(info, a),
                                ) && a == addr && info_matches(
                                    info,
                                    right.start as int,
                                    right.end as int,
                                    ls.line,
                                    ls.literal@,
                                )
                            } else {
                                r matches State::Item(op) && Ok::<
                                    OpCode,
                                    crate::opcodes::OpCodeError,
                                >(op) == spec_try_from_mnemonic(instr.value, Some(addr), at)
                            },
                            None => r matches State::Failed(AssemblerError::UnsetLabel(info, name))
                                && info_matches(
                                info,
                                right.start as int,
                                right.end as int,
                                ls.line,
                                ls.literal@,
                            ) && name@ == spec_label_name(right.value),
                        }
                    },
                    None => {
                        &&& (match ls.left {
                            Some(left) => post.table_lookup.model()
                                == pre.table_lookup.model().push(
                                (left.value@, pre.current_line),
                            ),
                            None => post.table_lookup.model() == pre.table_lookup.model(),
                        })
                        &&& match spec_try_from_mnemonic(
                            instr.value,
                            None,
                            AddressType::Literal,
                        ) {
                            Ok(op) => r matches State::Item(op2) && op2 == op,
                            Err(_) => r matches State::Failed(
                                AssemblerError::InstructionExpectedAddress(info, m),
                            ) && m == instr.value && info_matches(
                                info,
                                instr.start as int,
                                instr.end as int,
                                ls.line,
                                ls.literal@,
                            ),
                        }
                    },
                },
                None => {
                    &&& post.table_lookup.model() == pre.table_lookup.model()
                    &&& match (ls.left, ls.right) {
                        (Some(left), None) => r matches State::Failed(
                            AssemblerError::InstructionExpectedGotLabels(info),
                        ) && info_matches(
                            info,
                            left.start as int,
                            left.end as int,
                            ls.line,
                            ls.literal@,
                        ),
                        (None, Some(right)) => r matches State::Failed(
                            AssemblerError::InstructionExpectedGotLabels(info),
                        ) && info_matches(
                            info,
                            right.start as int,
                            right.end as int,
                            ls.line,
                            ls.literal@,
                        ),
                        (Some(left), Some(right)) => r matches State::Failed(
                            AssemblerError::InstructionExpected(info),
                        ) && info_matches(
                            info,
                            left.start as int,
                            right.end as int,
                            ls.line,
                            ls.literal@,
                        ),
                        // excluded by the assembler's invariant
                        (None, None) => true,
                    }
                },
            },
        }
    }
}

impl Assembler {
    pub open spec fn inv(&self) -> bool {
        &&& self.line_structure@.len() <= 100
        &&& self.current_line <= self.line_structure@.len()
        &&& forall|k: int|
            0 <= k < self.line_structure@.len() ==> (#[trigger] self.line_structure@[k] matches Some(
                ls,
            ) ==> wf_line(ls))
    }

    /// A second pass over structured lines and the label table the first
    /// pass built.
    pub fn new(line_structure: Vec<Option<LineStructure>>, table_lookup: LabelLookup) -> (r:
        Assembler)
        requires
            line_structure@.len() <= 100,
            forall|k: int|
                0 <= k < line_structure@.len() ==> (#[trigger] line_structure@[k] matches Some(ls)
                    ==> wf_line(ls)),
        ensures
            r.inv(),
            r.line_structure == line_structure,
            r.table_lookup == table_lookup,
            r.current_line == 0,
    {
        Assembler { line_structure, table_lookup, current_line: 0 }
    }

    /// Converts the structured line at the cursor into one encoded
    /// instruction, resolving its operand against the label table, and
    /// advances.
    pub fn parse_line(&mut self) -> (r: State<OpCode, AssemblerError>)
        requires
            old(self).inv(),
        ensures
            final(self).inv(),
            parse_line_post(*old(self), *final(self), r),
    {
        let i = self.current_line as usize;
        if i >= self.line_structure.len() {
            return State::Done;
        }
        let this_line = self.current_line;
        self.current_line = self.current_line + 1;
        let line = &self.line_structure[i];
        match line {
            None => State::Done,
            Some(ls) => {
                match (&ls.left, &ls.instruction, &ls.right) {
                    (_, Some(instr), Some(right)) => {
                        let m = instr.value;
                        let address: u16;
                        let address_type: AddressType;
                        match &right.value {
                            RightField::Literal(v) => {
                                address = *v;
                                address_type = AddressType::Literal;
                            },
                            RightField::LiteralPointer(v) => {
                                address = *v;
                                address_type = AddressType::Pointer;
                            },
                            RightField::Register(reg) => {
                                address = register_address(reg);
                                address_type = AddressType::Literal;
                            },
                            RightField::RegisterPointer(reg) => {
                                address = register_address(reg);
                                address_type = AddressType::Pointer;
                            },
                            RightField::Label(l) => {
                                match self.table_lookup.get(l.as_slice()) {
                                    Some(a) => {
                                        address = a;
                                        address_type = AddressType::Literal;
                                    },
                                    None => {
                                        return State::Failed(
                                            AssemblerError::UnsetLabel(
                                                ErrorInfo::new(
                                                    right.start,
                                                    right.end,
                                                    ls.line,
                                                    clone_bytes(&ls.literal),
                                                ),
                                                clone_bytes(l),
                                            ),
                                        );
                                    },
                                }
                            },
                            RightField::LabelPointer(l) => {
                                match self.table_lookup.get(l.as_slice()) {
                                    Some(a) => {
                                        address = a;
                                        address_type = AddressType::Pointer;
                                    },
                                    None => {
                                        return State::Failed(
                                            AssemblerError::UnsetLabel(
                                                ErrorInfo::new(
                                                    right.start,
                                                    right.end,
                                                    ls.line,
                                                    clone_bytes(&ls.literal),
                                                ),
                                                clone_bytes(l),
                                            ),
                                        );
                                    },
                                }
                            },
                        }
                        if requires_address(m) && address >= 100 {
                            return State::Failed(
                                AssemblerError::OperandOutOfRange(
                                    ErrorInfo::new(
                                        right.start,
                                        right.end,
                                        ls.line,
                                        clone_bytes(&ls.literal),
                                    ),
                                    address,
                                ),
                            );
                        }
                        match OpCode::try_from_mnemonic_type(m, Some(address), address_type) {
                            Ok(op) => State::Item(op),
                            Err(_) => {
                                proof {
                                    assert(false);
                                }
                                State::Done
                            },
                        }
                    },
                    (left, Some(instr), None) => {
                        let m = instr.value;
                        match left {
                            Some(left_part) => {
                                let name = clone_bytes(&left_part.value);
                                self.table_lookup.insert(name, this_line);
                            },
                            None => {
                            },
                        }
                        match OpCode::try_from_mnemonic_type(m, None, AddressType::Literal) {
                            Ok(op) => State::Item(op),
                            Err(_) => State::Failed(
                                AssemblerError::InstructionExpectedAddress(
                                    ErrorInfo::new(
                                        instr.start,
                                        instr.end,
                                        ls.line,
                                        clone_bytes(&ls.literal),
                                    ),
                                    m,
                                ),
                            ),
                        }
                    },
                    (Some(left), None, None) => State::Failed(
                        AssemblerError::InstructionExpectedGotLabels(
                            ErrorInfo::new(left.start, left.end, ls.line, clone_bytes(&ls.literal)),
                        ),
                    ),
                    (None, None, Some(right)) => State::Failed(
                        AssemblerError::InstructionExpectedGotLabels(
                            ErrorInfo::new(
                                right.start,
                                right.end,
                                ls.line,
                                clone_bytes(&ls.literal),
                            ),
                        ),
                    ),
                    (Some(left), None, Some(right)) => State::Failed(
                        AssemblerError::InstructionExpected(
                            ErrorInfo::new(left.start, right.end, ls.line, clone_bytes(&ls.literal)),
                        ),
                    ),
                    (None, None, None) => {
                        proof {
                            assert(false);
                        }
                        State::Done
                    },
                }
            },
        }
    }

    /// How far the pass has come: the index one past the line last read.
    pub fn current_line(&self) -> (r: u16)
        ensures
            r == self.current_line,
    {
        self.current_line
    }
}

/// What the whole second pass leaves in memory, one line after another:
/// `None` where a line fails to assemble.
pub open spec fn spec_pass2(
    lines: Seq<Option<LineStructure>>,
    table: Seq<(Seq<u8>, u16)>,
    mem: Seq<u16>,
    i: int,
) -> Option<Seq<u16>>
    decreases lines.len() - i,
{
    if i < 0 || i >= lines.len() {
        Some(mem)
    } else {
        match lines[i] {
            None => Some(mem),
            Some(ls) => match ls.instruction {
                Some(instr) => match ls.right {
                    Some(right) => match spec_right_addr(right.value, table) {
                        Some((addr, at)) => if spec_requires_address(instr.value) && addr >= 100 {
                            None
                        } else {
                            spec_pass2(
                                lines,
                                table,
                                mem.update(i, spec_encode_of_mnemonic(instr.value, Some(addr), at)),
                                i + 1,
                            )
                        },
                        None => None,
                    },
                    None => {
                        let table2 = match ls.left {
                            Some(left) => table.push((left.value@, i as u16)),
                            None => table,
                        };
                        match spec_try_from_mnemonic(instr.value, None, AddressType::Literal) {
                            Ok(op) => spec_pass2(
                                lines,
                                table2,
                                mem.update(i, op.spec_encode()),
                                i + 1,
                            ),
                            Err(_) => None,
                        }
                    },
                },
                None => None,
            },
        }
    }
}

impl Assembler {
    /// Runs the whole second pass, writing each encoded instruction into the
    /// memory image at its line's index.
    pub fn assemble_into(&mut self, mailbox: &mut Mailbox) -> (r: Result<(), AssemblerError>)
        requires
            old(self).inv(),
            old(self).current_line == 0,
            old(mailbox).inv(),
        ensures
            final(self).inv(),
            final(mailbox).inv(),
            r is Ok ==> Some(final(mailbox)@) == spec_pass2(
                old(self).line_structure@,
                old(self).table_lookup.model(),
                old(mailbox)@,
                0,
            ),
            r is Err ==> spec_pass2(
                old(self).line_structure@,
                old(self).table_lookup.model(),
                old(mailbox)@,
                0,
            ) is None,
    {
        let ghost lines0 = self.line_structure@;
        let ghost table0 = self.table_lookup.model();
        let ghost mem0 = mailbox@;
        loop
            invariant
                self.inv(),
                mailbox.inv(),
                lines0 == old(self).line_structure@,
                table0 == old(self).table_lookup.model(),
                mem0 == old(mailbox)@,
                self.line_structure@ == lines0,
                spec_pass2(lines0, self.table_lookup.model(), mailbox@, self.current_line as int)
                    == spec_pass2(lines0, table0, mem0, 0),
            decreases lines0.len() - self.current_line,
        {
            let ghost table_pre = self.table_lookup.model();
            let ghost mem_pre = mailbox@;
            let before = self.current_line;
            match self.parse_line() {
                State::Item(op) => {
                    let idx = self.current_line() - 1;
                    let code = op.to_numeric_representation();
                    mailbox.write(idx, code);
                    proof {
                        assert(spec_pass2(
                            lines0,
                            self.table_lookup.model(),
                            mailbox@,
                            self.current_line as int,
                        ) == spec_pass2(lines0, table_pre, mem_pre, before as int));
                    }
                },
                State::Failed(e) => {
                    proof {
                        assert(spec_pass2(lines0, table_pre, mem_pre, before as int) is None);
                    }
                    return Err(e);
                },
                State::Done => {
                    proof {
                        assert(spec_pass2(lines0, table_pre, mem_pre, before as int) == Some(
                            mem_pre,
                        ));
                    }
                    return Ok(());
                },
            }
        }
    }
}

/// Label resolution is position-independent: a label bound once resolves to
/// its address no matter where its defining line stands among the other
/// lines' bindings — in particular, a label defined after its first use
/// still resolves, because resolution reads only the completed table.
pub proof fn lemma_label_position_independent(
    early: Seq<(Seq<u8>, u16)>,
    late: Seq<(Seq<u8>, u16)>,
    name: Seq<u8>,
    addr: u16,
)
    requires
        forall|k: int| 0 <= k < early.len() ==> (#[trigger] early[k]).0 != name,
        forall|k: int| 0 <= k < late.len() ==> (#[trigger] late[k]).0 != name,
    ensures
        spec_lookup(early + seq![(name, addr)] + late, name) == Some(addr),
    decreases late.len(),
{
    let whole = early + seq![(name, addr)] + late;
    if late.len() == 0 {
        assert(whole =~= early.push((name, addr)));
        assert(whole.last() == (name, addr));
    } else {
        assert(whole.last() == late.last());
        assert(whole.drop_last() =~= early + seq![(name, addr)] + late.drop_last());
        lemma_label_position_independent(early, late.drop_last(), name, addr);
    }
}

} // verus!
