use lmc::compact;
use lmc::opcodes::{AddressType, MnemonicType, OpCode, OpCodeError};

fn addressed_mnemonics() -> Vec<MnemonicType> {
    vec![
        MnemonicType::ADD,
        MnemonicType::SUB,
        MnemonicType::STA,
        MnemonicType::LDA,
        MnemonicType::BRA,
        MnemonicType::BRZ,
        MnemonicType::BRP,
        MnemonicType::MULT,
    ]
}

#[test]
fn round_trip_all_addressed_mnemonics() {
    for m in addressed_mnemonics() {
        for addr in 0u16..100 {
            for at in [AddressType::Literal, AddressType::Pointer] {
                let op = OpCode { mnemonic: m, address: Some(addr), address_type: at };
                let code = op.to_numeric_representation();
                let back = OpCode::try_from(code).expect("encoded instruction must decode");
                assert_eq!(back, op);
            }
        }
    }
}

#[test]
fn exact_encodings() {
    let add5 = OpCode {
        mnemonic: MnemonicType::ADD,
        address: Some(5),
        address_type: AddressType::Literal,
    };
    assert_eq!(add5.to_numeric_representation(), 105);
    let add5p = OpCode {
        mnemonic: MnemonicType::ADD,
        address: Some(5),
        address_type: AddressType::Pointer,
    };
    assert_eq!(add5p.to_numeric_representation(), 105 ^ 1024);
    let mult50 = OpCode {
        mnemonic: MnemonicType::MULT,
        address: Some(50),
        address_type: AddressType::Literal,
    };
    assert_eq!(mult50.to_numeric_representation(), 450);
    let inp = OpCode { mnemonic: MnemonicType::INP, address: None, address_type: AddressType::Literal };
    assert_eq!(inp.to_numeric_representation(), 901);
    let out = OpCode { mnemonic: MnemonicType::OUT, address: None, address_type: AddressType::Literal };
    assert_eq!(out.to_numeric_representation(), 902);
    let sout = OpCode { mnemonic: MnemonicType::SOUT, address: None, address_type: AddressType::Literal };
    assert_eq!(sout.to_numeric_representation(), 904);
    let pop = OpCode { mnemonic: MnemonicType::POP, address: None, address_type: AddressType::Literal };
    assert_eq!(pop.to_numeric_representation(), 998);
    let push = OpCode { mnemonic: MnemonicType::PUSH, address: None, address_type: AddressType::Literal };
    assert_eq!(push.to_numeric_representation(), 999);
    let hlt = OpCode { mnemonic: MnemonicType::HLT, address: None, address_type: AddressType::Literal };
    assert_eq!(hlt.to_numeric_representation(), 0);
    let dat = OpCode { mnemonic: MnemonicType::DAT, address: Some(7), address_type: AddressType::Literal };
    assert_eq!(dat.to_numeric_representation(), 7);
}

#[test]
fn decode_rejects_gaps() {
    assert_eq!(OpCode::try_from(1), Err(OpCodeError::InvalidOpCode(1)));
    assert_eq!(OpCode::try_from(99), Err(OpCodeError::InvalidOpCode(99)));
    assert_eq!(OpCode::try_from(900), Err(OpCodeError::InvalidOpCode(900)));
    assert_eq!(OpCode::try_from(903), Err(OpCodeError::InvalidOpCode(903)));
    assert_eq!(OpCode::try_from(997), Err(OpCodeError::InvalidOpCode(997)));
    assert_eq!(OpCode::try_from(2048), Err(OpCodeError::InvalidOpCode(2048)));
}

#[test]
fn decode_strips_pointer_flag() {
    let decoded = OpCode::try_from(105 ^ 1024).unwrap();
    assert_eq!(decoded.mnemonic, MnemonicType::ADD);
    assert_eq!(decoded.address, Some(5));
    assert_eq!(decoded.address_type, AddressType::Pointer);
    // a flagged word whose stripped value is not an instruction is invalid,
    // and the error reports the stripped value
    assert_eq!(OpCode::try_from(1024 ^ 950), Err(OpCodeError::InvalidOpCode(950)));
}

#[test]
fn zero_decodes_to_halt() {
    let decoded = OpCode::try_from(0).unwrap();
    assert_eq!(decoded.mnemonic, MnemonicType::HLT);
    assert_eq!(decoded.address, None);
}

#[test]
fn address_expected_when_operand_missing() {
    for m in addressed_mnemonics() {
        assert_eq!(
            OpCode::try_from_mnemonic_type(m, None, AddressType::Literal),
            Err(OpCodeError::AddressExpected(m))
        );
    }
    // instructions without an operand requirement accept a missing operand
    let inp = OpCode::try_from_mnemonic_type(MnemonicType::INP, None, AddressType::Literal).unwrap();
    assert_eq!(inp.address, None);
    // DAT with no operand defaults to a zero cell
    let dat = OpCode::try_from_mnemonic_type(MnemonicType::DAT, None, AddressType::Literal).unwrap();
    assert_eq!(dat.address, Some(0));
}

#[test]
fn mnemonic_names() {
    assert_eq!(MnemonicType::from_string("ADD"), Some(MnemonicType::ADD));
    assert_eq!(MnemonicType::from_string("SOUT"), Some(MnemonicType::SOUT));
    assert_eq!(MnemonicType::from_string("MULT"), Some(MnemonicType::MULT));
    assert_eq!(MnemonicType::from_string("PUSH"), Some(MnemonicType::PUSH));
    assert_eq!(MnemonicType::from_string("POP"), Some(MnemonicType::POP));
    assert_eq!(MnemonicType::from_string("add"), None);
    assert_eq!(MnemonicType::from_string(""), None);
    assert_eq!(MnemonicType::from_string("ADDX"), None);
}

#[test]
fn compact_codec_lacks_mult() {
    // the reduced variant has no MULT range: a raw 450 is an error, not a
    // data cell and not a crash
    assert_eq!(
        compact::OpCode::try_from(450),
        Err(compact::OpCodeError::InvalidOpCode(450))
    );
    assert_eq!(
        compact::OpCode::try_from(999),
        Err(compact::OpCodeError::InvalidOpCode(999))
    );
    let add = compact::OpCode::try_from(105).unwrap();
    assert_eq!(add.mnemonic, MnemonicType::ADD);
    assert_eq!(add.address, Some(5));
    let op = compact::OpCode::from_mnemonic_type(MnemonicType::BRA, Some(7));
    assert_eq!(op.to_numeric_representation(), 607);
    let dat = compact::OpCode::from_mnemonic_type(MnemonicType::DAT, None);
    assert_eq!(dat.to_numeric_representation(), 0);
}
