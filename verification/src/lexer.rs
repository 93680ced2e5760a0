//! The first assembly pass: tokenizes each source line into a structured
//! record (optional left label, optional instruction, optional operand) and
//! collects the label table along the way, so that forward references are
//! already resolvable when the second pass begins.
//!
//! Tokenization splits a line on ASCII whitespace; a token starting with
//! `//` ends the line. A token in the operand position is a decimal literal
//! if it parses as one, a virtual register if it names one
//! (case-insensitive), and a label reference otherwise; wrapping the operand
//! in square brackets marks one level of indirection. Blank and comment-only
//! lines are skipped entirely and do not consume a logical line index.

use vstd::prelude::*;

use crate::error::{info_matches, AssemblerError, ErrorInfo};
use crate::opcodes::{spec_mnemonic_of, MnemonicType};

verus! {

use vstd::string::StringSliceAdditionalSpecFns;

/// ASCII whitespace, as the tokenizer splits on it.
pub open spec fn spec_is_space(b: u8) -> bool {
    b == 32 || b == 9 || b == 10 || b == 11 || b == 12 || b == 13
}

fn is_space(b: u8) -> (r: bool)
    ensures
        r == spec_is_space(b),
{
    b == 32 || b == 9 || b == 10 || b == 11 || b == 12 || b == 13
}

/// The token spans of a line, scanned left to right with the start of the
/// currently open token carried along.
pub open spec fn spec_tokens_from(s: Seq<u8>, i: int, cur: Option<int>) -> Seq<(int, int)>
    recommends
        0 <= i <= s.len(),
    decreases s.len() - i,
{
    if i < 0 || i >= s.len() {
        match cur {
            Some(st) => seq![(st, s.len() as int)],
            None => seq![],
        }
    } else if spec_is_space(s[i]) {
        match cur {
            Some(st) => seq![(st, i)] + spec_tokens_from(s, i + 1, None),
            None => spec_tokens_from(s, i + 1, None),
        }
    } else {
        spec_tokens_from(s, i + 1, if cur is Some {
            cur
        } else {
            Some(i)
        })
    }
}

/// The (start, end) spans of a line's whitespace-separated tokens.
pub open spec fn spec_tokens(s: Seq<u8>) -> Seq<(int, int)> {
    spec_tokens_from(s, 0, None)
}

/// One token of a source line: its character span and its classified value.
#[derive(Debug, Clone, PartialEq, Eq)]
pub struct LinePart<T> {
    pub start: usize,
    pub end: usize,
    pub value: T,
}

/// A raw token matches the span the tokenizer found for it.
pub open spec fn token_matches(p: LinePart<Vec<u8>>, span: (int, int), s: Seq<u8>) -> bool {
    &&& p.start == span.0
    &&& p.end == span.1
    &&& p.value@ == s.subrange(span.0, span.1)
}

/// Splits a line on whitespace, keeping each token's character indices.
pub fn split_whitespace_with_index(s: &[u8]) -> (r: Vec<LinePart<Vec<u8>>>)
    ensures
        r@.len() == spec_tokens(s@).len(),
        forall|k: int| 0 <= k < r@.len() ==> token_matches(r@[k], #[trigger] spec_tokens(s@)[k], s@),
        forall|k: int|
            0 <= k < r@.len() ==> 0 <= (#[trigger] spec_tokens(s@)[k]).0 < spec_tokens(s@)[k].1
                <= s@.len(),
{
    let ghost all = spec_tokens(s@);
    let mut r: Vec<LinePart<Vec<u8>>> = Vec::new();
    let mut i: usize = 0;
    let mut cur_start: Option<usize> = None;
    while i < s.len()
        invariant
            i <= s@.len(),
            cur_start matches Some(st) ==> st < i,
            all == r@.map_values(|p: LinePart<Vec<u8>>| (p.start as int, p.end as int))
                + spec_tokens_from(
                s@,
                i as int,
                match cur_start {
                    Some(st) => Some(st as int),
                    None => None,
                },
            ),
            forall|k: int| 0 <= k < r@.len() ==> token_matches(r@[k], #[trigger] all[k], s@),
            forall|k: int|
                0 <= k < r@.len() ==> 0 <= (#[trigger] all[k]).0 < all[k].1 <= s@.len(),
        decreases s@.len() - i,
    {
        let ghost pairs = r@.map_values(|p: LinePart<Vec<u8>>| (p.start as int, p.end as int));
        if is_space(s[i]) {
            match cur_start {
                Some(st) => {
                    let value = vstd::slice::slice_to_vec(&s[st..i]);
                    let part = LinePart { start: st, end: i, value };
                    r.push(part);
                    proof {
                        assert(r@.map_values(|p: LinePart<Vec<u8>>| (p.start as int, p.end as int))
                            =~= pairs.push((st as int, i as int)));
                        assert(pairs.push((st as int, i as int)) + spec_tokens_from(
                            s@,
                            i + 1,
                            None,
                        ) =~= pairs + (seq![(st as int, i as int)] + spec_tokens_from(
                            s@,
                            i + 1,
                            None,
                        )));
                    }
                    cur_start = None;
                },
                None => {
                },
            }
        } else {
            if cur_start.is_none() {
                cur_start = Some(i);
            }
        }
        i = i + 1;
    }
    match cur_start {
        Some(st) => {
            let ghost pairs = r@.map_values(|p: LinePart<Vec<u8>>| (p.start as int, p.end as int));
            let value = vstd::slice::slice_to_vec(&s[st..s.len()]);
            let part = LinePart { start: st, end: s.len(), value };
            r.push(part);
            proof {
                assert(r@.map_values(|p: LinePart<Vec<u8>>| (p.start as int, p.end as int)) =~= pairs.push(
                    (st as int, s@.len() as int),
                ));
                assert(pairs.push((st as int, s@.len() as int)) =~= pairs + seq![
                    (st as int, s@.len() as int),
                ]);
            }
        },
        None => {
            proof {
                assert(r@.map_values(|p: LinePart<Vec<u8>>| (p.start as int, p.end as int)) + seq![]
                    =~= r@.map_values(|p: LinePart<Vec<u8>>| (p.start as int, p.end as int)));
            }
        },
    }
    r
}

/// The digits of a decimal literal, most significant first.
pub open spec fn spec_all_digits(s: Seq<u8>) -> bool {
    s.len() > 0 && forall|i: int| 0 <= i < s.len() ==> 48 <= #[trigger] s[i] <= 57
}

/// The value a digit string denotes.
pub open spec fn spec_digits_val(s: Seq<u8>) -> int
    decreases s.len(),
{
    if s.len() == 0 {
        0
    } else {
        spec_digits_val(s.drop_last()) * 10 + (s.last() - 48)
    }
}

/// What parsing a token as an unsigned 16-bit decimal number yields: an
/// optional leading plus sign, then digits only, with the value in range.
pub open spec fn spec_parse_u16(s: Seq<u8>) -> Option<u16> {
    let digits = if s.len() >= 1 && s[0] == 43 {
        s.drop_first()
    } else {
        s
    };
    if spec_all_digits(digits) && spec_digits_val(digits) <= 65535 {
        Some(spec_digits_val(digits) as u16)
    } else {
        None
    }
}

proof fn lemma_digits_val_grows(s: Seq<u8>, i: int)
    requires
        0 <= i <= s.len(),
        spec_all_digits(s) || s.len() == 0,
        spec_digits_val(s.take(i)) > 65535,
    ensures
        spec_digits_val(s) > 65535,
    decreases s.len() - i,
{
    if i == s.len() {
        assert(s.take(i) =~= s);
    } else {
        assert(s.take(i + 1).drop_last() =~= s.take(i));
        assert(spec_digits_val(s.take(i + 1)) == spec_digits_val(s.take(i)) * 10 + (s.take(
            i + 1,
        ).last() - 48));
        lemma_digits_val_grows(s, i + 1);
    }
}

/// Parses a token as an unsigned 16-bit decimal number.
pub fn parse_u16(s: &[u8]) -> (r: Option<u16>)
    ensures
        r == spec_parse_u16(s@),
{
    let digits: &[u8] = if s.len() >= 1 && s[0] == 43 {
        &s[1..s.len()]
    } else {
        s
    };
    proof {
        if s@.len() >= 1 && s@[0] == 43 {
            assert(digits@ =~= s@.drop_first());
        }
    }
    if digits.len() == 0 {
        return None;
    }
    let mut acc: u32 = 0;
    let mut i: usize = 0;
    while i < digits.len()
        invariant
            i <= digits@.len(),
            digits@.len() > 0,
            digits@ == (if s@.len() >= 1 && s@[0] == 43 {
                s@.drop_first()
            } else {
                s@
            }),
            forall|j: int| 0 <= j < i ==> 48 <= #[trigger] digits@[j] <= 57,
            (acc <= 65535 && acc == spec_digits_val(digits@.take(i as int))) || (acc == 70000
                && spec_digits_val(digits@.take(i as int)) > 65535),
        decreases digits@.len() - i,
    {
        let b = digits[i];
        if b < 48 || b > 57 {
            proof {
                assert(!(48 <= digits@[i as int] <= 57));
                assert(!spec_all_digits(digits@));
            }
            return None;
        }
        proof {
            assert(digits@.take(i + 1).drop_last() =~= digits@.take(i as int));
        }
        if acc > 65535 {
            // already out of range; the remaining characters only need to be
            // checked for being digits
        } else {
            acc = acc * 10 + (b - 48) as u32;
            if acc > 65535 {
                acc = 70000;
            }
        }
        i = i + 1;
    }
    proof {
        assert(digits@.take(digits@.len() as int) =~= digits@);
        if acc == 70000 {
            lemma_digits_val_grows(digits@, digits@.len() as int);
        }
    }
    if acc > 65535 {
        None
    } else {
        Some(acc as u16)
    }
}

/// Copies a byte token.
pub fn clone_bytes(v: &Vec<u8>) -> (r: Vec<u8>)
    ensures
        r@ == v@,
{
    vstd::slice::slice_to_vec(v.as_slice())
}

/// A byte, upper-cased if it is an ASCII lower-case letter.
pub open spec fn spec_upper(b: u8) -> u8 {
    if 97 <= b <= 122 {
        (b - 32) as u8
    } else {
        b
    }
}

fn upper(b: u8) -> (r: u8)
    ensures
        r == spec_upper(b),
{
    if 97 <= b && b <= 122 {
        b - 32
    } else {
        b
    }
}

/// The stack-pointer register name, matched case-insensitively.
pub open spec fn spec_is_sp(s: Seq<u8>) -> bool {
    s.len() == 2 && spec_upper(s[0]) == 83 && spec_upper(s[1]) == 80
}

/// The accumulator register name, matched case-insensitively.
pub open spec fn spec_is_acc(s: Seq<u8>) -> bool {
    &&& s.len() == 11
    &&& spec_upper(s[0]) == 65
    &&& spec_upper(s[1]) == 67
    &&& spec_upper(s[2]) == 67
    &&& spec_upper(s[3]) == 85
    &&& spec_upper(s[4]) == 77
    &&& spec_upper(s[5]) == 85
    &&& spec_upper(s[6]) == 76
    &&& spec_upper(s[7]) == 65
    &&& spec_upper(s[8]) == 84
    &&& spec_upper(s[9]) == 79
    &&& spec_upper(s[10]) == 82
}

fn is_sp_name(s: &[u8]) -> (r: bool)
    ensures
        r == spec_is_sp(s@),
{
    s.len() == 2 && upper(s[0]) == 83 && upper(s[1]) == 80
}

fn is_acc_name(s: &[u8]) -> (r: bool)
    ensures
        r == spec_is_acc(s@),
{
    s.len() == 11 && upper(s[0]) == 65 && upper(s[1]) == 67 && upper(s[2]) == 67 && upper(s[3])
        == 85 && upper(s[4]) == 77 && upper(s[5]) == 85 && upper(s[6]) == 76 && upper(s[7]) == 65
        && upper(s[8]) == 84 && upper(s[9]) == 79 && upper(s[10]) == 82
}

/// An operand token written in pointer form: wrapped in square brackets.
pub open spec fn spec_pointer_form(s: Seq<u8>) -> bool {
    s.len() >= 2 && s[0] == 91 && s[s.len() - 1] == 93
}

/// The operand token with its pointer brackets stripped, if it carries any.
pub open spec fn spec_inner(s: Seq<u8>) -> Seq<u8> {
    if spec_pointer_form(s) {
        s.subrange(1, s.len() - 1)
    } else {
        s
    }
}

/// The two virtual registers an operand may name instead of an address.
#[derive(Debug, Clone, Copy, PartialEq, Eq, Structural)]
pub enum RegisterName {
    StackPointer,
    Accumulator,
}

/// What stands to the right of an instruction: a decimal literal, a label
/// reference or a register name, each in direct or pointer form.
#[derive(Debug, Clone, PartialEq, Eq)]
pub enum RightField {
    Literal(u16),
    Label(Vec<u8>),
    Register(RegisterName),
    LiteralPointer(u16),
    LabelPointer(Vec<u8>),
    RegisterPointer(RegisterName),
}

/// How an operand token is classified: a literal if it parses as a decimal
/// number, a register if it names one, a label reference otherwise, with the
/// pointer form noted.
pub open spec fn operand_matches(s: Seq<u8>, r: RightField) -> bool {
    let ptr = spec_pointer_form(s);
    let inner = spec_inner(s);
    match spec_parse_u16(inner) {
        Some(v) => r == (if ptr {
            RightField::LiteralPointer(v)
        } else {
            RightField::Literal(v)
        }),
        None => if spec_is_sp(inner) {
            r == (if ptr {
                RightField::RegisterPointer(RegisterName::StackPointer)
            } else {
                RightField::Register(RegisterName::StackPointer)
            })
        } else if spec_is_acc(inner) {
            r == (if ptr {
                RightField::RegisterPointer(RegisterName::Accumulator)
            } else {
                RightField::Register(RegisterName::Accumulator)
            })
        } else {
            if ptr {
                r matches RightField::LabelPointer(l) && l@ == inner
            } else {
                r matches RightField::Label(l) && l@ == inner
            }
        },
    }
}

/// Classifies an operand token.
pub fn classify_operand(tok: &Vec<u8>) -> (r: RightField)
    ensures
        operand_matches(tok@, r),
{
    let len = tok.len();
    let pointer = len >= 2 && tok[0] == 91 && tok[len - 1] == 93;
    let inner: &[u8] = if pointer {
        &tok.as_slice()[1..len - 1]
    } else {
        tok.as_slice()
    };
    proof {
        assert(inner@ =~= spec_inner(tok@));
    }
    match parse_u16(inner) {
        Some(v) => {
            if pointer {
                RightField::LiteralPointer(v)
            } else {
                RightField::Literal(v)
            }
        },
        None => {
            if is_sp_name(inner) {
                if pointer {
                    RightField::RegisterPointer(RegisterName::StackPointer)
                } else {
                    RightField::Register(RegisterName::StackPointer)
                }
            } else if is_acc_name(inner) {
                if pointer {
                    RightField::RegisterPointer(RegisterName::Accumulator)
                } else {
                    RightField::Register(RegisterName::Accumulator)
                }
            } else {
                let l = vstd::slice::slice_to_vec(inner);
                if pointer {
                    RightField::LabelPointer(l)
                } else {
                    RightField::Label(l)
                }
            }
        },
    }
}

/// The label table built during lexing: label name to resolved address,
/// where the later of two bindings of one name wins.
#[derive(Debug, Clone, PartialEq, Eq)]
pub struct LabelLookup {
    pub entries: Vec<(Vec<u8>, u16)>,
}

/// The address a list of bindings gives a name: the latest binding wins, as
/// in a map that each insertion overwrites.
pub open spec fn spec_lookup(entries: Seq<(Seq<u8>, u16)>, key: Seq<u8>) -> Option<u16>
    decreases entries.len(),
{
    if entries.len() == 0 {
        None
    } else if entries.last().0 == key {
        Some(entries.last().1)
    } else {
        spec_lookup(entries.drop_last(), key)
    }
}

/// Byte equality of two tokens.
pub fn bytes_eq(a: &[u8], b: &[u8]) -> (r: bool)
    ensures
        r == (a@ == b@),
{
    if a.len() != b.len() {
        proof {
            assert(a@.len() != b@.len());
        }
        return false;
    }
    let mut i: usize = 0;
    while i < a.len()
        invariant
            a@.len() == b@.len(),
            i <= a@.len(),
            forall|j: int| 0 <= j < i ==> a@[j] == b@[j],
        decreases a@.len() - i,
    {
        if a[i] != b[i] {
            return false;
        }
        i = i + 1;
    }
    proof {
        assert(a@ =~= b@);
    }
    true
}

impl LabelLookup {
    /// The table as a sequence of (name, address) bindings, oldest first.
    pub open spec fn model(&self) -> Seq<(Seq<u8>, u16)> {
        self.entries@.map_values(|e: (Vec<u8>, u16)| (e.0@, e.1))
    }

    /// An empty table.
    pub fn new() -> (r: LabelLookup)
        ensures
            r.model() == Seq::<(Seq<u8>, u16)>::empty(),
    {
        let r = LabelLookup { entries: Vec::new() };
        proof {
            assert(r.model() =~= Seq::<(Seq<u8>, u16)>::empty());
        }
        r
    }

    /// Binds a name to an address; a later binding shadows an earlier one.
    pub fn insert(&mut self, name: Vec<u8>, address: u16)
        ensures
            final(self).model() == old(self).model().push((name@, address)),
    {
        let ghost pre = self.model();
        self.entries.push((name, address));
        proof {
            assert(self.model() =~= pre.push((name@, address)));
        }
    }

    /// The address a name is bound to, if any.
    pub fn get(&self, name: &[u8]) -> (r: Option<u16>)
        ensures
            r == spec_lookup(self.model(), name@),
    {
        let ghost m = self.model();
        let mut i: usize = self.entries.len();
        proof {
            assert(m.take(i as int) =~= m);
        }
        while i > 0
            invariant
                i <= self.entries@.len(),
                m == self.model(),
                spec_lookup(m, name@) == spec_lookup(m.take(i as int), name@),
            decreases i,
        {
            let entry = &self.entries[i - 1];
            if bytes_eq(entry.0.as_slice(), name) {
                proof {
                    assert(m.take(i as int).last() == m[i - 1]);
                }
                return Some(entry.1);
            }
            proof {
                assert(m.take(i as int).drop_last() =~= m.take(i - 1));
            }
            i = i - 1;
        }
        proof {
            assert(m.take(0) =~= Seq::<(Seq<u8>, u16)>::empty());
        }
        None
    }
}

/// The parsed form of one source line: an optional left label token, an
/// optional instruction token and an optional operand token, plus the source
/// line number and the full line text for diagnostics.
#[derive(Debug, Clone, PartialEq, Eq)]
pub struct LineStructure {
    pub left: Option<LinePart<Vec<u8>>>,
    pub instruction: Option<LinePart<MnemonicType>>,
    pub right: Option<LinePart<RightField>>,
    pub line: u16,
    pub literal: Vec<u8>,
}

impl LineStructure {
    /// An empty record for a source line, to be filled token by token.
    pub fn new(line: u16, literal: Vec<u8>) -> (r: LineStructure)
        ensures
            r.left is None,
            r.instruction is None,
            r.right is None,
            r.line == line,
            r.literal == literal,
    {
        LineStructure { left: None, instruction: None, right: None, line, literal }
    }
}

/// The kind of token the lexer's state machine expects next on a line.
#[derive(Debug, Clone, Copy, PartialEq, Eq, Structural)]
pub enum TokenType {
    Any,
    LeftLabel,
    RightLabel,
    Instruction,
    Eof,
}

/// What lexing one source line yields: a structured record, a diagnostic,
/// or nothing for a blank or comment-only line.
#[derive(Debug)]
pub enum LexerState {
    Parsed(LineStructure),
    Failed(AssemblerError),
    Skip,
}

/// A token span that opens a comment: the rest of the line is ignored.
pub open spec fn spec_is_comment(s: Seq<u8>, span: (int, int)) -> bool {
    span.1 - span.0 >= 2 && s[span.0] == 47 && s[span.0 + 1] == 47
}

/// How many tokens stand before the first comment token.
pub open spec fn spec_cut_from(toks: Seq<(int, int)>, s: Seq<u8>, i: int) -> int
    decreases toks.len() - i,
{
    if i < 0 || i >= toks.len() {
        i
    } else if spec_is_comment(s, toks[i]) {
        i
    } else {
        spec_cut_from(toks, s, i + 1)
    }
}

/// The source line number of the next line, saturating rather than wrapping.
pub open spec fn spec_next_file_line(l: u16) -> u16 {
    if l == u16::MAX {
        l
    } else {
        (l + 1) as u16
    }
}

/// The first assembly pass: feed it each source line in order and it yields
/// the line's structured record while collecting the label table.
pub struct Lexer {
    pub label_lookup: LabelLookup,
    /// The logical line index the next non-skipped line will assemble into.
    pub assembly_line: u16,
    /// The source line index of the next line, counting every line.
    pub file_line: u16,
}

/// The label table is untouched.
pub open spec fn lookup_unchanged(pre: Lexer, post: Lexer) -> bool {
    post.label_lookup.model() == pre.label_lookup.model()
}

/// The line's left label was bound to the current logical line index.
pub open spec fn lookup_pushed(pre: Lexer, post: Lexer, key: Seq<u8>) -> bool {
    post.label_lookup.model() == pre.label_lookup.model().push((key, pre.assembly_line))
}

/// The line-independent fields of a parsed record.
pub open spec fn parsed_common(ls: LineStructure, pre: Lexer, bytes: Seq<u8>) -> bool {
    ls.line == pre.file_line && ls.literal@ == bytes
}

/// The record's instruction part holds this mnemonic at this span.
pub open spec fn instr_part_matches(
    p: Option<LinePart<MnemonicType>>,
    span: (int, int),
    m: MnemonicType,
) -> bool {
    p matches Some(ip) && ip.start == span.0 && ip.end == span.1 && ip.value == m
}

/// The record's left label part holds this token.
pub open spec fn left_part_matches(
    p: Option<LinePart<Vec<u8>>>,
    span: (int, int),
    bytes: Seq<u8>,
) -> bool {
    p matches Some(lp) && token_matches(lp, span, bytes)
}

/// The record's operand part classifies this token.
pub open spec fn right_part_matches(
    p: Option<LinePart<RightField>>,
    span: (int, int),
    bytes: Seq<u8>,
) -> bool {
    p matches Some(rp) && rp.start == span.0 && rp.end == span.1 && operand_matches(
        bytes.subrange(span.0, span.1),
        rp.value,
    )
}

/// The line failed with a mnemonic in a position where none may stand.
pub open spec fn failed_unexpected(
    r: LexerState,
    span: (int, int),
    m: MnemonicType,
    pre: Lexer,
    bytes: Seq<u8>,
) -> bool {
    r matches LexerState::Failed(AssemblerError::UnexpectedInstruction(info, fm)) && info_matches(
        info,
        span.0,
        span.1,
        pre.file_line,
        bytes,
    ) && fm == m
}

/// A token follows the operand: a mnemonic there is an unexpected
/// instruction, anything else is text past the end of the line.
pub open spec fn trailing_failure(r: LexerState, span: (int, int), pre: Lexer, bytes: Seq<u8>) -> bool {
    match spec_mnemonic_of(bytes.subrange(span.0, span.1)) {
        Some(m) => failed_unexpected(r, span, m, pre, bytes),
        None => r matches LexerState::Failed(AssemblerError::EndOfLineExpected(info))
            && info_matches(info, span.0, span.1, pre.file_line, bytes),
    }
}

/// Everything `next_line` does with one source line, over the line's token
/// spans: which record or diagnostic comes back, what enters the label
/// table, and how the line counters move.
pub open spec fn next_line_post(bytes: Seq<u8>, pre: Lexer, post: Lexer, r: LexerState) -> bool {
    let toks = spec_tokens(bytes);
    let n = spec_cut_from(toks, bytes, 0);
    &&& post.file_line == spec_next_file_line(pre.file_line)
    &&& if n == 0 {
        &&& r is Skip
        &&& lookup_unchanged(pre, post)
        &&& post.assembly_line == pre.assembly_line
    } else if pre.assembly_line >= 100 {
        &&& (r matches LexerState::Failed(AssemblerError::TooManyLines(info)) && info_matches(
            info,
            toks[0].0,
            toks[0].1,
            pre.file_line,
            bytes,
        ))
        &&& lookup_unchanged(pre, post)
        &&& post.assembly_line == pre.assembly_line
    } else {
        let tok0 = bytes.subrange(toks[0].0, toks[0].1);
        match spec_mnemonic_of(tok0) {
            Some(m0) => {
                &&& lookup_unchanged(pre, post)
                &&& if n == 1 {
                    &&& (r matches LexerState::Parsed(ls) && parsed_common(ls, pre, bytes)
                        && ls.left is None && ls.right is None && instr_part_matches(
                        ls.instruction,
                        toks[0],
                        m0,
                    ))
                    &&& post.assembly_line == pre.assembly_line + 1
                } else {
                    let tok1 = bytes.subrange(toks[1].0, toks[1].1);
                    match spec_mnemonic_of(tok1) {
                        Some(m1) => failed_unexpected(r, toks[1], m1, pre, bytes)
                            && post.assembly_line == pre.assembly_line,
                        None => if n == 2 {
                            &&& (r matches LexerState::Parsed(ls) && parsed_common(ls, pre, bytes)
                                && ls.left is None && instr_part_matches(ls.instruction, toks[0], m0)
                                && right_part_matches(ls.right, toks[1], bytes))
                            &&& post.assembly_line == pre.assembly_line + 1
                        } else {
                            trailing_failure(r, toks[2], pre, bytes) && post.assembly_line
                                == pre.assembly_line
                        },
                    }
                }
            },
            None => {
                &&& lookup_pushed(pre, post, tok0)
                &&& if n == 1 {
                    &&& (r matches LexerState::Parsed(ls) && parsed_common(ls, pre, bytes)
                        && left_part_matches(ls.left, toks[0], bytes) && ls.instruction is None
                        && ls.right is None)
                    &&& post.assembly_line == pre.assembly_line + 1
                } else {
                    let tok1 = bytes.subrange(toks[1].0, toks[1].1);
                    match spec_mnemonic_of(tok1) {
                        None => {
                            &&& (r matches LexerState::Failed(
                                AssemblerError::InvalidInstruction(info, t),
                            ) && info_matches(info, toks[1].0, toks[1].1, pre.file_line, bytes)
                                && t@ == tok1)
                            &&& post.assembly_line == pre.assembly_line
                        },
                        Some(m1) => if n == 2 {
                            &&& (r matches LexerState::Parsed(ls) && parsed_common(ls, pre, bytes)
                                && left_part_matches(ls.left, toks[0], bytes) && instr_part_matches(
                                ls.instruction,
                                toks[1],
                                m1,
                            ) && ls.right is None)
                            &&& post.assembly_line == pre.assembly_line + 1
                        } else {
                            let tok2 = bytes.subrange(toks[2].0, toks[2].1);
                            match spec_mnemonic_of(tok2) {
                                Some(m2) => failed_unexpected(r, toks[2], m2, pre, bytes)
                                    && post.assembly_line == pre.assembly_line,
                                None => if n == 3 {
                                    &&& (r matches LexerState::Parsed(ls) && parsed_common(
                                        ls,
                                        pre,
                                        bytes,
                                    ) && left_part_matches(ls.left, toks[0], bytes)
                                        && instr_part_matches(ls.instruction, toks[1], m1)
                                        && right_part_matches(ls.right, toks[2], bytes))
                                    &&& post.assembly_line == pre.assembly_line + 1
                                } else {
                                    trailing_failure(r, toks[3], pre, bytes) && post.assembly_line
                                        == pre.assembly_line
                                },
                            }
                        },
                    }
                }
            },
        }
    }
}

impl Lexer {
    /// A fresh first pass: empty label table, counters at the first line.
    pub fn new() -> (r: Lexer)
        ensures
            r.label_lookup.model() == Seq::<(Seq<u8>, u16)>::empty(),
            r.assembly_line == 0,
            r.file_line == 0,
    {
        Lexer { label_lookup: LabelLookup::new(), assembly_line: 0, file_line: 0 }
    }

    /// The label table collected so far.
    pub fn get_label_lookup(&self) -> (r: &LabelLookup)
        ensures
            *r == self.label_lookup,
    {
        &self.label_lookup
    }

    /// Lexes one source line: tokenizes it, classifies its tokens through
    /// the expected-token state machine, and registers a left label at the
    /// current logical line index.
    pub fn next_line(&mut self, line: &str) -> (r: LexerState)
        ensures
            next_line_post(line.spec_bytes(), *old(self), *final(self), r),
    {
        let bytes = line.as_bytes();
        let ghost toks = spec_tokens(bytes@);
        let tokens = split_whitespace_with_index(bytes);
        // cut the token list at the first comment token
        let mut n: usize = 0;
        while n < tokens.len()
            invariant_except_break
                n <= tokens@.len(),
                tokens@.len() == toks.len(),
                forall|k: int| 0 <= k < toks.len() ==> token_matches(tokens@[k], #[trigger] toks[k], bytes@),
                forall|k: int|
                    0 <= k < toks.len() ==> 0 <= (#[trigger] toks[k]).0 < toks[k].1
                        <= bytes@.len(),
                spec_cut_from(toks, bytes@, 0) == spec_cut_from(toks, bytes@, n as int),
            ensures
                n <= tokens@.len(),
                tokens@.len() == toks.len(),
                forall|k: int| 0 <= k < toks.len() ==> token_matches(tokens@[k], #[trigger] toks[k], bytes@),
                forall|k: int|
                    0 <= k < toks.len() ==> 0 <= (#[trigger] toks[k]).0 < toks[k].1
                        <= bytes@.len(),
                n as int == spec_cut_from(toks, bytes@, 0),
            decreases tokens@.len() - n,
        {
            let t = &tokens[n];
            let is_comment = t.value.len() >= 2 && t.value[0] == 47 && t.value[1] == 47;
            proof {
                let span = toks[n as int];
                let v = tokens@[n as int].value@;
                assert(v == bytes@.subrange(span.0, span.1));
                if v.len() >= 2 {
                    assert(v[0] == bytes@[span.0 + 0]);
                    assert(v[1] == bytes@[span.0 + 1]);
                }
                assert(is_comment == spec_is_comment(bytes@, span));
            }
            if is_comment {
                break ;
            }
            n = n + 1;
        }
        let file_line = self.file_line;
        if self.file_line < u16::MAX {
            self.file_line = self.file_line + 1;
        }
        if n == 0 {
            return LexerState::Skip;
        }
        let literal = vstd::slice::slice_to_vec(bytes);
        let t0 = &tokens[0];
        if self.assembly_line >= 100 {
            return LexerState::Failed(
                AssemblerError::TooManyLines(ErrorInfo::new(t0.start, t0.end, file_line, literal)),
            );
        }
        match MnemonicType::from_bytes(t0.value.as_slice()) {
            Some(m0) => {
                // instruction first: operand may follow, nothing else
                if n == 1 {
                    let mut ls = LineStructure::new(file_line, literal);
                    ls.instruction = Some(LinePart { start: t0.start, end: t0.end, value: m0 });
                    self.assembly_line = self.assembly_line + 1;
                    LexerState::Parsed(ls)
                } else {
                    let t1 = &tokens[1];
                    match MnemonicType::from_bytes(t1.value.as_slice()) {
                        Some(m1) => LexerState::Failed(
                            AssemblerError::UnexpectedInstruction(
                                ErrorInfo::new(t1.start, t1.end, file_line, literal),
                                m1,
                            ),
                        ),
                        None => {
                            if n == 2 {
                                let mut ls = LineStructure::new(file_line, literal);
                                ls.instruction = Some(
                                    LinePart { start: t0.start, end: t0.end, value: m0 },
                                );
                                ls.right = Some(
                                    LinePart {
                                        start: t1.start,
                                        end: t1.end,
                                        value: classify_operand(&t1.value),
                                    },
                                );
                                self.assembly_line = self.assembly_line + 1;
                                LexerState::Parsed(ls)
                            } else {
                                let t2 = &tokens[2];
                                match MnemonicType::from_bytes(t2.value.as_slice()) {
                                    Some(m2) => LexerState::Failed(
                                        AssemblerError::UnexpectedInstruction(
                                            ErrorInfo::new(t2.start, t2.end, file_line, literal),
                                            m2,
                                        ),
                                    ),
                                    None => LexerState::Failed(
                                        AssemblerError::EndOfLineExpected(
                                            ErrorInfo::new(t2.start, t2.end, file_line, literal),
                                        ),
                                    ),
                                }
                            }
                        },
                    }
                }
            },
            None => {
                // left label first: it is registered at once, so a forward
                // reference resolves no matter where the definition stands
                let name = clone_bytes(&t0.value);
                self.label_lookup.insert(name, self.assembly_line);
                if n == 1 {
                    let mut ls = LineStructure::new(file_line, literal);
                    ls.left = Some(
                        LinePart { start: t0.start, end: t0.end, value: clone_bytes(&t0.value) },
                    );
                    self.assembly_line = self.assembly_line + 1;
                    LexerState::Parsed(ls)
                } else {
                    let t1 = &tokens[1];
                    match MnemonicType::from_bytes(t1.value.as_slice()) {
                        None => LexerState::Failed(
                            AssemblerError::InvalidInstruction(
                                ErrorInfo::new(t1.start, t1.end, file_line, literal),
                                clone_bytes(&t1.value),
                            ),
                        ),
                        Some(m1) => {
                            if n == 2 {
                                let mut ls = LineStructure::new(file_line, literal);
                                ls.left = Some(
                                    LinePart {
                                        start: t0.start,
                                        end: t0.end,
                                        value: clone_bytes(&t0.value),
                                    },
                                );
                                ls.instruction = Some(
                                    LinePart { start: t1.start, end: t1.end, value: m1 },
                                );
                                self.assembly_line = self.assembly_line + 1;
                                LexerState::Parsed(ls)
                            } else {
                                let t2 = &tokens[2];
                                match MnemonicType::from_bytes(t2.value.as_slice()) {
                                    Some(m2) => LexerState::Failed(
                                        AssemblerError::UnexpectedInstruction(
                                            ErrorInfo::new(t2.start, t2.end, file_line, literal),
                                            m2,
                                        ),
                                    ),
                                    None => {
                                        if n == 3 {
                                            let mut ls = LineStructure::new(file_line, literal);
                                            ls.left = Some(
                                                LinePart {
                                                    start: t0.start,
                                                    end: t0.end,
                                                    value: clone_bytes(&t0.value),
                                                },
                                            );
                                            ls.instruction = Some(
                                                LinePart { start: t1.start, end: t1.end, value: m1 },
                                            );
                                            ls.right = Some(
                                                LinePart {
                                                    start: t2.start,
                                                    end: t2.end,
                                                    value: classify_operand(&t2.value),
                                                },
                                            );
                                            self.assembly_line = self.assembly_line + 1;
                                            LexerState::Parsed(ls)
                                        } else {
                                            let t3 = &tokens[3];
                                            match MnemonicType::from_bytes(t3.value.as_slice()) {
                                                Some(m3) => LexerState::Failed(
                                                    AssemblerError::UnexpectedInstruction(
                                                        ErrorInfo::new(
                                                            t3.start,
                                                            t3.end,
                                                            file_line,
                                                            literal,
                                                        ),
                                                        m3,
                                                    ),
                                                ),
                                                None => LexerState::Failed(
                                                    AssemblerError::EndOfLineExpected(
                                                        ErrorInfo::new(
                                                            t3.start,
                                                            t3.end,
                                                            file_line,
                                                            literal,
                                                        ),
                                                    ),
                                                ),
                                            }
                                        }
                                    },
                                }
                            }
                        },
                    }
                }
            },
        }
    }
}

} // verus!
