use lmc::mailbox::Mailbox;
use lmc::runtime::{
    wrap_between_valid_values, Runtime, RuntimeError, RuntimeState, StackedRuntime, STACK_START,
};

fn program(words: Vec<u16>) -> Mailbox {
    Mailbox::from_words(&words)
}

#[test]
fn wraparound_add() {
    // accumulator=500, memory=600 -> ADD -> accumulator=100, flag cleared
    // cell 3 holds 600; LDA 3 / ADD 3 / HLT
    let mut rt = Runtime::new(program(vec![503, 103, 0, 600]));
    // LDA brings 600, ADD another 600: 1200 wraps to 200? use 500 base instead
    let mut rt2 = Runtime::new(program(vec![504, 105, 0, 0, 500, 600]));
    let s = rt2.start(100);
    assert!(s.is_halted());
    assert_eq!(*rt2.get_accumulator(), 100);
    assert!(!rt2.common.negative_flag);
    // and the simple double-600 case wraps to 200
    let s = rt.start(100);
    assert!(s.is_halted());
    assert_eq!(*rt.get_accumulator(), 200);
}

#[test]
fn wraparound_mult() {
    // 50 * 60 = 3000 wraps to 0; 40 * 30 = 1200 wraps to 200
    let mut rt = Runtime::new(program(vec![504, 405, 0, 0, 40, 30]));
    let s = rt.start(100);
    assert!(s.is_halted());
    assert_eq!(*rt.get_accumulator(), 200);
    assert!(!rt.common.negative_flag);
}

#[test]
fn wrap_helper_reduces_modulo_1000() {
    assert_eq!(wrap_between_valid_values(999), 999);
    assert_eq!(wrap_between_valid_values(1000), 0);
    assert_eq!(wrap_between_valid_values(1100), 100);
    assert_eq!(wrap_between_valid_values(2500), 500);
    assert_eq!(wrap_between_valid_values(65535), 535);
}

#[test]
fn sub_underflow_sets_flag_and_absolute_difference() {
    // accumulator=3, memory=10 -> SUB -> accumulator=7, negative flag set
    let mut rt = Runtime::new(program(vec![504, 205, 0, 0, 3, 10]));
    let s = rt.start(100);
    assert!(s.is_halted());
    assert_eq!(*rt.get_accumulator(), 7);
    assert!(*rt.get_negative_flag());
}

#[test]
fn sub_without_borrow_keeps_flag_clear() {
    // accumulator=10, memory=3 -> SUB -> accumulator=7, flag untouched
    let mut rt = Runtime::new(program(vec![504, 205, 0, 0, 10, 3]));
    let s = rt.start(100);
    assert!(s.is_halted());
    assert_eq!(*rt.get_accumulator(), 7);
    assert!(!rt.common.negative_flag);
}

#[test]
fn brz_fires_only_on_zero_with_clear_flag() {
    // accumulator zero, flag clear: BRZ 3 jumps over the OUT at 1
    let mut rt = Runtime::new(program(vec![703, 902, 0, 0]));
    let s = rt.start(100);
    assert!(s.is_halted());
    assert_eq!(rt.get_outputs().len(), 0);

    // accumulator nonzero: BRZ falls through and the OUT runs
    let mut rt = Runtime::new(program(vec![505, 704, 902, 0, 0, 8]));
    let s = rt.start(100);
    assert!(s.is_halted());
    assert_eq!(rt.get_outputs(), &vec![8]);

    // accumulator zero but negative flag set (0 - 1 borrows): BRZ must not fire
    // LDA 6 (=0) / SUB 7 (=1) -> acc 1, flag set; SUB 7 again -> acc 0, flag set
    let mut rt = Runtime::new(program(vec![506, 207, 207, 705, 0, 902, 0, 1]));
    // after the two SUBs the accumulator is 0 with the flag set, so BRZ 5
    // (which would run the OUT) must not fire and the HLT at 4 ends the run
    let s = rt.start(100);
    assert!(s.is_halted());
    assert_eq!(rt.get_outputs().len(), 0);
}

#[test]
fn brp_fires_whenever_flag_clear_even_on_zero() {
    // accumulator 0, flag clear: BRP branches
    let mut rt = Runtime::new(program(vec![803, 902, 0, 0]));
    let s = rt.start(100);
    assert!(s.is_halted());
    assert_eq!(rt.get_outputs().len(), 0);

    // flag set: BRP does not branch
    let mut rt = Runtime::new(program(vec![505, 206, 804, 0, 0, 1, 2]));
    // LDA 5 (=1), SUB 6 (=2) -> flag set; BRP 4 must fall through to HLT at 3
    let s = rt.start(100);
    assert!(s.is_halted());
    assert_eq!(*rt.get_program_counter(), 4);
}

#[test]
fn pointer_mode_resolves_one_indirection() {
    // ADD [4]: cell 4 holds 5, cell 5 holds 30; LDA 6 (=12) first
    let mut rt = Runtime::new(program(vec![506, 104 ^ 1024, 0, 0, 5, 30, 12]));
    let s = rt.start(100);
    assert!(s.is_halted());
    assert_eq!(*rt.get_accumulator(), 42);
}

#[test]
fn input_queue_and_awaiting_input() {
    let mut rt = Runtime::new(program(vec![901, 902, 0]));
    // no input yet: the machine waits without advancing
    let s = rt.start(100);
    assert!(matches!(s, RuntimeState::AwaitingInput));
    assert_eq!(*rt.get_program_counter(), 0);
    // provide the input and continue
    rt.push_input(41);
    let s = rt.start(100);
    assert!(s.is_halted());
    assert_eq!(rt.get_outputs(), &vec![41]);
}

#[test]
fn character_output_and_invalid_character() {
    // SOUT of 72 'H' then 105 'i'
    let mut rt = Runtime::new(program(vec![505, 904, 506, 904, 0, 72, 105]));
    // cells: 0 LDA 5, 1 SOUT, 2 LDA 6, 3 SOUT, 4 HLT, then the two characters
    let s = rt.start(100);
    assert!(s.is_halted());
    assert_eq!(rt.get_char_outputs(), &b"Hi".to_vec());

    // a value above 255 cannot become a character
    let mut rt = Runtime::new(program(vec![503, 904, 0, 300]));
    let s = rt.start(100);
    assert_eq!(
        s,
        RuntimeState::Error(RuntimeError::InvalidCharacter(300))
    );
}

#[test]
fn invalid_word_halts_with_error() {
    let mut rt = Runtime::new(program(vec![903]));
    let s = rt.start(100);
    assert_eq!(
        s,
        RuntimeState::Error(RuntimeError::InvalidInstruction(0, 903))
    );
    // the faulting cycle had no effect
    assert_eq!(*rt.get_program_counter(), 0);
}

#[test]
fn data_reached_as_code_halts() {
    // decode of a raw 0 cell is HLT, and running into the 1-99 range faults:
    // here the program runs off its end into a zero cell and halts
    let mut rt = Runtime::new(program(vec![505, 0, 0, 0, 0, 7]));
    let s = rt.start(100);
    assert!(s.is_halted());
    assert_eq!(*rt.get_accumulator(), 7);
}

#[test]
fn out_of_bounds_effective_address_faults() {
    // LDA [3] where cell 3 holds 5000: the effective address leaves memory
    let mut rt = Runtime::new(program(vec![503 ^ 1024, 0, 0, 5000]));
    let s = rt.start(100);
    assert_eq!(
        s,
        RuntimeState::Error(RuntimeError::AddressOutOfBounds(5000))
    );
}

#[test]
fn stack_ops_unsupported_on_plain_runtime() {
    let mut rt = Runtime::new(program(vec![999]));
    let s = rt.start(100);
    assert_eq!(
        s,
        RuntimeState::Error(RuntimeError::UnsupportedInstruction(0, 999))
    );
}

#[test]
fn stack_lifo_order() {
    // push 1, 2, 3 then pop three times: 3, 2, 1 and the pointer is back
    let mut rt = StackedRuntime::new(Mailbox::new());
    assert_eq!(rt.stack_pointer, STACK_START);
    rt.stack_push(1);
    rt.stack_push(2);
    rt.stack_push(3);
    assert_eq!(rt.stack_pointer, STACK_START - 3);
    assert_eq!(rt.stack_pop(), 3);
    assert_eq!(rt.stack_pop(), 2);
    assert_eq!(rt.stack_pop(), 1);
    assert_eq!(rt.stack_pointer, STACK_START);
}

#[test]
fn stack_lifo_through_instructions() {
    // INP/PUSH three values, then POP/OUT three times
    let mut rt = StackedRuntime::new(program(vec![
        901, 999, 901, 999, 901, 999, 998, 902, 998, 902, 998, 902, 0,
    ]));
    rt.push_input(1);
    rt.push_input(2);
    rt.push_input(3);
    let s = rt.start(100);
    assert!(s.is_halted());
    assert_eq!(rt.get_outputs(), &vec![3, 2, 1]);
    assert_eq!(rt.stack_pointer, STACK_START);
}

#[test]
fn virtual_registers_read_stack_pointer_and_accumulator() {
    // LDA 99 reads the stack pointer
    let mut rt = StackedRuntime::new(program(vec![599, 902, 0]));
    let s = rt.start(100);
    assert!(s.is_halted());
    assert_eq!(rt.get_outputs(), &vec![STACK_START]);

    // STA 99 moves the stack pointer; a later PUSH lands below it
    let mut rt = StackedRuntime::new(program(vec![503, 399, 0, 42]));
    let s = rt.start(100);
    assert!(s.is_halted());
    assert_eq!(rt.stack_pointer, 42);
}

#[test]
fn current_instruction_is_inspectable() {
    let rt = Runtime::new(program(vec![105]));
    let (decoded, raw) = rt.get_current_instruction();
    assert_eq!(raw, 105);
    let op = decoded.unwrap();
    assert_eq!(op.mnemonic, lmc::opcodes::MnemonicType::ADD);
    assert_eq!(op.address, Some(5));

    let rt = Runtime::new(program(vec![903]));
    let (decoded, raw) = rt.get_current_instruction();
    assert_eq!(raw, 903);
    assert!(decoded.is_none());
}
