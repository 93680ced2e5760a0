use lmc::mailbox::{Mailbox, MailboxError};
use lmc::opcodes::{AddressType, MnemonicType};

#[test]
fn new_mailbox_is_zeroed() {
    let m = Mailbox::new();
    for i in 0u16..100 {
        assert_eq!(m.get(i), 0);
    }
}

#[test]
fn set_and_get() {
    let mut m = Mailbox::new();
    m.set(0, 999);
    m.set(99, 1);
    assert_eq!(m.get(0), 999);
    assert_eq!(m.get(99), 1);
    assert_eq!(m.get(50), 0);
}

#[test]
fn set_instruction_writes_encoding() {
    let mut m = Mailbox::new();
    m.set_instruction(3, MnemonicType::ADD, Some(5), AddressType::Literal);
    assert_eq!(m.get(3), 105);
    m.set_instruction(4, MnemonicType::LDA, Some(9), AddressType::Pointer);
    assert_eq!(m.get(4), 509 ^ 1024);
    m.set_instruction(5, MnemonicType::HLT, None, AddressType::Literal);
    assert_eq!(m.get(5), 0);
}

#[test]
fn image_round_trip_arbitrary_words() {
    let mut words: Vec<u16> = Vec::new();
    for i in 0u32..100 {
        // arbitrary values spread over the whole 16-bit range
        words.push(((i * 655) % 65536) as u16);
    }
    let m = Mailbox::from_words(&words);
    let bytes = m.export_to_bytes();
    assert_eq!(bytes.len(), 200);
    let back = Mailbox::read_from_u8_slice(bytes.as_slice()).expect("image must read back");
    assert_eq!(back, m);
}

#[test]
fn image_bytes_are_word_order_low_byte_first() {
    let mut m = Mailbox::new();
    m.write(0, 0x1234);
    let bytes = m.export_to_bytes();
    assert_eq!(bytes[0], 0x34);
    assert_eq!(bytes[1], 0x12);
    assert_eq!(bytes[2], 0);
}

#[test]
fn image_with_wrong_byte_count_is_rejected() {
    let short = [0u8; 199];
    assert_eq!(
        Mailbox::read_from_u8_slice(&short),
        Err(MailboxError::WrongByteCount(199))
    );
    let long = [0u8; 201];
    assert_eq!(
        Mailbox::read_from_u8_slice(&long),
        Err(MailboxError::WrongByteCount(201))
    );
    let empty: [u8; 0] = [];
    assert_eq!(
        Mailbox::read_from_u8_slice(&empty),
        Err(MailboxError::WrongByteCount(0))
    );
}

#[test]
fn from_words_pads_with_zeros() {
    let words = vec![7u16, 8, 9];
    let m = Mailbox::from_words(&words);
    assert_eq!(m.get(0), 7);
    assert_eq!(m.get(1), 8);
    assert_eq!(m.get(2), 9);
    assert_eq!(m.get(3), 0);
    assert_eq!(m.get(99), 0);
}
