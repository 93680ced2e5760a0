use lmc::assembler::{Assembler, State};
use lmc::error::AssemblerError;
use lmc::lexer::{
    classify_operand, parse_u16, split_whitespace_with_index, Lexer, LexerState, LineStructure,
    RegisterName, RightField,
};
use lmc::mailbox::Mailbox;
use lmc::runtime::Runtime;

/// Runs the first pass over whole source text, expecting every line to lex.
fn lex_all(lexer: &mut Lexer, source: &str) -> Vec<Option<LineStructure>> {
    let mut lines = Vec::new();
    for line in source.lines() {
        match lexer.next_line(line) {
            LexerState::Parsed(ls) => lines.push(Some(ls)),
            LexerState::Skip => {}
            LexerState::Failed(e) => panic!("lexing failed: {:?}", e),
        }
    }
    lines
}

/// Lexes and assembles whole source text into a memory image.
fn assemble(source: &str) -> Mailbox {
    let mut lexer = Lexer::new();
    let lines = lex_all(&mut lexer, source);
    let table = lexer.get_label_lookup().clone();
    let mut assembler = Assembler::new(lines, table);
    let mut mailbox = Mailbox::new();
    assembler
        .assemble_into(&mut mailbox)
        .expect("assembly failed");
    mailbox
}

#[test]
fn end_to_end_difference_program() {
    // INP / STA 8 / INP / STA 9 / LDA 8 / SUB 9 / OUT / HLT with inputs 9
    // and 2 outputs 7
    let source = "INP\nSTA 8\nINP\nSTA 9\nLDA 8\nSUB 9\nOUT\nHLT\n";
    let mailbox = assemble(source);
    let mut rt = Runtime::new(mailbox);
    rt.push_input(9);
    rt.push_input(2);
    let s = rt.start(1000);
    assert!(s.is_halted());
    assert_eq!(rt.get_outputs(), &vec![7]);
}

#[test]
fn forward_reference_resolves() {
    // the branch target is defined two lines after its use
    let source = "BRA skip\nDAT 1\nskip HLT\n";
    let mailbox = assemble(source);
    assert_eq!(mailbox.get(0), 602);
    assert_eq!(mailbox.get(1), 1);
    assert_eq!(mailbox.get(2), 0);
}

#[test]
fn backward_reference_resolves_identically() {
    let source = "start INP\nOUT\nBRA start\n";
    let mailbox = assemble(source);
    assert_eq!(mailbox.get(2), 600);
}

#[test]
fn labels_bind_to_logical_line_indices() {
    let mut lexer = Lexer::new();
    let source = "// a comment line\n\nloop ADD 5\n  STA 9 // trailing comment\nend HLT\n";
    let lines = lex_all(&mut lexer, source);
    assert_eq!(lines.len(), 3);
    let table = lexer.get_label_lookup();
    assert_eq!(table.get(b"loop"), Some(0));
    assert_eq!(table.get(b"end"), Some(2));
    assert_eq!(table.get(b"missing"), None);
}

#[test]
fn comment_and_blank_lines_do_not_consume_an_index() {
    let source = "// leading comment\n\nINP\n// middle\nOUT\n\nHLT\n";
    let mailbox = assemble(source);
    assert_eq!(mailbox.get(0), 901);
    assert_eq!(mailbox.get(1), 902);
    assert_eq!(mailbox.get(2), 0);
}

#[test]
fn register_operands_map_to_reserved_addresses() {
    // SP is address 99, ACCUMULATOR is 98, case-insensitively
    let mailbox = assemble("STA SP\nLDA accumulator\nHLT\n");
    assert_eq!(mailbox.get(0), 399);
    assert_eq!(mailbox.get(1), 598);
}

#[test]
fn pointer_operands_set_the_flag_bit() {
    let mailbox = assemble("ADD [8]\nLDA [target]\ntarget HLT\n");
    assert_eq!(mailbox.get(0), 108 ^ 1024);
    assert_eq!(mailbox.get(1), 502 ^ 1024);
}

#[test]
fn dat_cells_hold_their_value() {
    let mailbox = assemble("DAT 999\nDAT\nHLT\n");
    assert_eq!(mailbox.get(0), 999);
    assert_eq!(mailbox.get(1), 0);
}

#[test]
fn unset_label_is_reported() {
    let mut lexer = Lexer::new();
    let lines = lex_all(&mut lexer, "ADD missing\nHLT\n");
    let table = lexer.get_label_lookup().clone();
    let mut assembler = Assembler::new(lines, table);
    match assembler.parse_line() {
        State::Failed(AssemblerError::UnsetLabel(info, name)) => {
            assert_eq!(name, b"missing".to_vec());
            assert_eq!(info.start, 4);
            assert_eq!(info.end, 11);
            assert_eq!(info.line, 0);
            assert_eq!(info.literal, b"ADD missing".to_vec());
        }
        other => panic!("expected an unset label, got {:?}", state_kind(&other)),
    }
}

fn state_kind(s: &State<lmc::opcodes::OpCode, AssemblerError>) -> String {
    match s {
        State::Item(op) => format!("Item({:?})", op),
        State::Failed(e) => format!("Failed({:?})", e),
        State::Done => String::from("Done"),
    }
}

#[test]
fn missing_address_is_reported() {
    let mut lexer = Lexer::new();
    let lines = lex_all(&mut lexer, "ADD\n");
    let table = lexer.get_label_lookup().clone();
    let mut assembler = Assembler::new(lines, table);
    assert!(matches!(
        assembler.parse_line(),
        State::Failed(AssemblerError::InstructionExpectedAddress(_, lmc::opcodes::MnemonicType::ADD))
    ));
}

#[test]
fn label_only_line_is_reported() {
    let mut lexer = Lexer::new();
    let lines = lex_all(&mut lexer, "lonely\n");
    let table = lexer.get_label_lookup().clone();
    let mut assembler = Assembler::new(lines, table);
    assert!(matches!(
        assembler.parse_line(),
        State::Failed(AssemblerError::InstructionExpectedGotLabels(_))
    ));
    assert_eq!(assembler.current_line(), 1);
}

#[test]
fn hand_built_label_and_operand_line_is_reported() {
    // a record holding a label and an operand but no instruction can only be
    // built by hand; the assembler still rejects it cleanly
    let ls = LineStructure {
        left: Some(lmc::lexer::LinePart { start: 0, end: 3, value: b"lab".to_vec() }),
        instruction: None,
        right: Some(lmc::lexer::LinePart { start: 4, end: 5, value: RightField::Literal(5) }),
        line: 0,
        literal: b"lab 5".to_vec(),
    };
    let mut assembler = Assembler::new(vec![Some(ls)], lmc::lexer::LabelLookup::new());
    assert!(matches!(
        assembler.parse_line(),
        State::Failed(AssemblerError::InstructionExpected(_))
    ));
}

#[test]
fn operand_out_of_range_is_reported() {
    let mut lexer = Lexer::new();
    let lines = lex_all(&mut lexer, "ADD 150\n");
    let table = lexer.get_label_lookup().clone();
    let mut assembler = Assembler::new(lines, table);
    assert!(matches!(
        assembler.parse_line(),
        State::Failed(AssemblerError::OperandOutOfRange(_, 150))
    ));
}

#[test]
fn lexer_rejects_unexpected_instruction() {
    let mut lexer = Lexer::new();
    assert!(matches!(
        lexer.next_line("ADD ADD"),
        LexerState::Failed(AssemblerError::UnexpectedInstruction(_, lmc::opcodes::MnemonicType::ADD))
    ));
}

#[test]
fn lexer_rejects_text_after_operand() {
    let mut lexer = Lexer::new();
    match lexer.next_line("ADD 5 extra") {
        LexerState::Failed(AssemblerError::EndOfLineExpected(info)) => {
            assert_eq!(info.start, 6);
            assert_eq!(info.end, 11);
        }
        _ => panic!("expected an end-of-line diagnostic"),
    }
}

#[test]
fn lexer_rejects_non_instruction_after_label() {
    let mut lexer = Lexer::new();
    match lexer.next_line("label ???") {
        LexerState::Failed(AssemblerError::InvalidInstruction(_, tok)) => {
            assert_eq!(tok, b"???".to_vec());
        }
        _ => panic!("expected an invalid instruction diagnostic"),
    }
}

#[test]
fn lexer_rejects_the_one_hundred_first_logical_line() {
    let mut lexer = Lexer::new();
    let mut lines = Vec::new();
    for _ in 0..100 {
        match lexer.next_line("INP") {
            LexerState::Parsed(ls) => lines.push(Some(ls)),
            _ => panic!("the first hundred lines must lex"),
        }
    }
    assert!(matches!(
        lexer.next_line("INP"),
        LexerState::Failed(AssemblerError::TooManyLines(_))
    ));
}

#[test]
fn tokenizer_reports_spans() {
    let tokens = split_whitespace_with_index(b"  ADD  5 ");
    assert_eq!(tokens.len(), 2);
    assert_eq!(tokens[0].start, 2);
    assert_eq!(tokens[0].end, 5);
    assert_eq!(tokens[0].value, b"ADD".to_vec());
    assert_eq!(tokens[1].start, 7);
    assert_eq!(tokens[1].end, 8);
    assert_eq!(tokens[1].value, b"5".to_vec());
}

#[test]
fn operand_classification() {
    assert_eq!(classify_operand(&b"123".to_vec()), RightField::Literal(123));
    assert_eq!(
        classify_operand(&b"[123]".to_vec()),
        RightField::LiteralPointer(123)
    );
    assert_eq!(
        classify_operand(&b"sp".to_vec()),
        RightField::Register(RegisterName::StackPointer)
    );
    assert_eq!(
        classify_operand(&b"[ACCUMULATOR]".to_vec()),
        RightField::RegisterPointer(RegisterName::Accumulator)
    );
    assert_eq!(
        classify_operand(&b"loop".to_vec()),
        RightField::Label(b"loop".to_vec())
    );
    assert_eq!(
        classify_operand(&b"[loop]".to_vec()),
        RightField::LabelPointer(b"loop".to_vec())
    );
}

#[test]
fn number_parsing_matches_decimal_rules() {
    assert_eq!(parse_u16(b"0"), Some(0));
    assert_eq!(parse_u16(b"999"), Some(999));
    assert_eq!(parse_u16(b"+42"), Some(42));
    assert_eq!(parse_u16(b"65535"), Some(65535));
    assert_eq!(parse_u16(b"65536"), None);
    assert_eq!(parse_u16(b"99999999999999999999"), None);
    assert_eq!(parse_u16(b""), None);
    assert_eq!(parse_u16(b"+"), None);
    assert_eq!(parse_u16(b"1x"), None);
    assert_eq!(parse_u16(b"-1"), None);
}

#[test]
fn diagnostic_rendering_points_at_the_span() {
    let info = lmc::error::ErrorInfo::new(4, 11, 0, b"ADD missing".to_vec());
    let rendered = lmc::error::show_code_and_point_at_position(&info);
    assert_eq!(rendered, b"ADD missing\n    ^^^^^^^".to_vec());
}

#[test]
fn later_label_binding_wins() {
    // two lines bind the same name; references resolve to the later line
    let mailbox = assemble("x DAT 1\nx DAT 2\nLDA x\nHLT\n");
    assert_eq!(mailbox.get(2), 501);
}

#[test]
fn pointer_register_operand_assembles_and_runs() {
    // LDA [SP] on the stacked engine: the stack pointer (95) names the cell
    // to load from
    let source = "LDA [SP]\nOUT\nHLT\n";
    let mailbox = assemble(source);
    assert_eq!(mailbox.get(0), 599 ^ 1024);
    let mut full = mailbox.clone();
    full.set(95, 123);
    let mut rt = lmc::runtime::StackedRuntime::new(full);
    let s = rt.start(100);
    assert!(s.is_halted());
    assert_eq!(rt.get_outputs(), &vec![123]);
}

#[test]
fn assembled_image_survives_the_binary_format() {
    let mailbox = assemble("INP\nSTA 8\nOUT\nHLT\n");
    let bytes = mailbox.export_to_bytes();
    let back = Mailbox::read_from_u8_slice(bytes.as_slice()).unwrap();
    assert_eq!(back, mailbox);
}
