//! Assembly-time diagnostics: every error carries the offending character
//! span and the full line text, so a host can render the line with a caret
//! under the offending token. The first error always aborts the assembly
//! pass; there is no recovery or multi-error reporting.

use vstd::prelude::*;

use crate::opcodes::MnemonicType;

verus! {

/// Where in the source an error sits: a character span, the zero-based
/// source line number, and the full text of that line.
#[derive(Debug, Clone, PartialEq, Eq)]
pub struct ErrorInfo {
    pub start: usize,
    pub end: usize,
    pub line: u16,
    pub literal: Vec<u8>,
}

impl ErrorInfo {
    pub fn new(start: usize, end: usize, line: u16, literal: Vec<u8>) -> (r: ErrorInfo)
        ensures
            r.start == start,
            r.end == end,
            r.line == line,
            r.literal == literal,
    {
        ErrorInfo { start, end, line, literal }
    }
}

/// The position fields of a diagnostic, as one predicate for contracts.
pub open spec fn info_matches(
    info: ErrorInfo,
    start: int,
    end: int,
    line: u16,
    literal: Seq<u8>,
) -> bool {
    &&& info.start == start
    &&& info.end == end
    &&& info.line == line
    &&& info.literal@ == literal
}

/// Everything that can go wrong while turning source text into a memory
/// image; each variant names what was expected or what was found.
#[derive(Debug, Clone, PartialEq, Eq)]
pub enum AssemblerError {
    /// A line held tokens but no instruction among them.
    InstructionExpected(ErrorInfo),
    /// A line held only a label, or only an operand, where an instruction
    /// was needed.
    InstructionExpectedGotLabels(ErrorInfo),
    /// A token followed the operand.
    EndOfLineExpected(ErrorInfo),
    /// An operand named a label that no line defines.
    UnsetLabel(ErrorInfo, Vec<u8>),
    /// A mnemonic stood where none may: after the instruction or operand.
    UnexpectedInstruction(ErrorInfo, MnemonicType),
    /// An address-requiring mnemonic was given no operand.
    InstructionExpectedAddress(ErrorInfo, MnemonicType),
    /// A token that is neither a mnemonic nor anything else its position
    /// allows.
    InvalidInstruction(ErrorInfo, Vec<u8>),
    /// A literal operand outside the 0-99 address range on an
    /// address-requiring instruction.
    OperandOutOfRange(ErrorInfo, u16),
    /// More logical lines than the 100-word memory can hold.
    TooManyLines(ErrorInfo),
}

/// The caret line under a rendered diagnostic: as many spaces as the span
/// starts at, then one caret per character of the span.
pub open spec fn spec_caret_line(start: int, end: int) -> Seq<u8>
    recommends
        0 <= start <= end,
{
    Seq::new(start as nat, |i: int| 32u8) + Seq::new((end - start) as nat, |i: int| 94u8)
}

/// The two diagnostic lines a host prints for an error position: the source
/// line, a line break, and the caret line pointing at the span.
pub fn show_code_and_point_at_position(position: &ErrorInfo) -> (r: Vec<u8>)
    requires
        position.start <= position.end,
    ensures
        r@ == position.literal@ + seq![10u8] + spec_caret_line(
            position.start as int,
            position.end as int,
        ),
{
    let mut out: Vec<u8> = Vec::new();
    let mut i: usize = 0;
    while i < position.literal.len()
        invariant
            i <= position.literal@.len(),
            out@ == position.literal@.take(i as int),
        decreases position.literal@.len() - i,
    {
        out.push(position.literal[i]);
        i = i + 1;
    }
    out.push(10);
    let mut j: usize = 0;
    while j < position.start
        invariant
            position.start <= position.end,
            j <= position.start,
            out@ == position.literal@ + seq![10u8] + Seq::new(j as nat, |i: int| 32u8),
        decreases position.start - j,
    {
        out.push(32);
        proof {
            assert(out@ =~= position.literal@ + seq![10u8] + Seq::new(
                (j + 1) as nat,
                |i: int| 32u8,
            ));
        }
        j = j + 1;
    }
    let mut k: usize = 0;
    while k < position.end - position.start
        invariant
            position.start <= position.end,
            k <= position.end - position.start,
            out@ == position.literal@ + seq![10u8] + Seq::new(
                position.start as nat,
                |i: int| 32u8,
            ) + Seq::new(k as nat, |i: int| 94u8),
        decreases position.end - position.start - k,
    {
        out.push(94);
        proof {
            assert(out@ =~= position.literal@ + seq![10u8] + Seq::new(
                position.start as nat,
                |i: int| 32u8,
            ) + Seq::new((k + 1) as nat, |i: int| 94u8));
        }
        k = k + 1;
    }
    proof {
        assert(out@ =~= position.literal@ + seq![10u8] + spec_caret_line(
            position.start as int,
            position.end as int,
        ));
    }
    out
}

} // verus!
