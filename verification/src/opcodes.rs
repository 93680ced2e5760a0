//! The instruction codec: the bidirectional mapping between a decoded
//! instruction (mnemonic, optional operand address, addressing mode) and its
//! 16-bit numeric form.
//!
//! The numeric layout is a decimal hundreds-encoding: each address-requiring
//! mnemonic owns a base (ADD 100, SUB 200, STA 300, MULT 400, LDA 500,
//! BRA 600, BRZ 700, BRP 800) to which the operand address 0-99 is added.
//! The instructions without an operand use fixed codes (INP 901, OUT 902,
//! SOUT 904, POP 998, PUSH 999, HLT/COB 0), and DAT is a raw data cell.
//! The pointer addressing mode is carried out-of-band by XOR-ing the value
//! 1024 into the encoded word.

use vstd::prelude::*;

verus! {

use vstd::string::StringSliceAdditionalSpecFns;

/// Whether an instruction's embedded address is used directly or as a
/// pointer to the memory cell holding the real address (one level of
/// indirection only).
#[derive(Debug, Clone, Copy, PartialEq, Eq, Structural)]
pub enum AddressType {
    Pointer,
    Literal,
}

impl AddressType {
    pub fn is_pointer(&self) -> (r: bool)
        ensures
            r == (*self is Pointer),
    {
        matches!(self, AddressType::Pointer)
    }

    pub fn is_literal(&self) -> (r: bool)
        ensures
            r == (*self is Literal),
    {
        matches!(self, AddressType::Literal)
    }
}

/// The closed set of symbolic instruction names. Purely symbolic: a
/// mnemonic has no numeric meaning by itself.
#[allow(non_camel_case_types)]
#[derive(Debug, Clone, Copy, PartialEq, Eq, Structural)]
pub enum MnemonicType {
    ADD,
    SUB,
    STA,
    LDA,
    BRA,
    BRZ,
    BRP,
    INP,
    OUT,
    HLT,
    COB,
    DAT,
    SOUT,
    MULT,
    PUSH,
    POP,
}

/// True of the mnemonics that must carry an operand address.
pub open spec fn spec_requires_address(m: MnemonicType) -> bool {
    match m {
        MnemonicType::ADD => true,
        MnemonicType::SUB => true,
        MnemonicType::STA => true,
        MnemonicType::LDA => true,
        MnemonicType::BRA => true,
        MnemonicType::BRZ => true,
        MnemonicType::BRP => true,
        MnemonicType::MULT => true,
        _ => false,
    }
}

/// The numeric base of an address-requiring mnemonic.
pub open spec fn spec_base(m: MnemonicType) -> u16
    recommends
        spec_requires_address(m),
{
    match m {
        MnemonicType::ADD => 100,
        MnemonicType::SUB => 200,
        MnemonicType::STA => 300,
        MnemonicType::MULT => 400,
        MnemonicType::LDA => 500,
        MnemonicType::BRA => 600,
        MnemonicType::BRZ => 700,
        MnemonicType::BRP => 800,
        _ => 0,
    }
}

/// The out-of-band flag value carried by pointer-mode encodings.
pub open spec fn spec_pointer_toggle(pointer: bool) -> u16 {
    if pointer {
        1024
    } else {
        0
    }
}

#[derive(Debug, Clone, Copy, PartialEq, Eq, Structural)]
pub enum OpCodeError {
    InvalidOpCode(u16),
    AddressExpected(MnemonicType),
}

/// A decoded instruction: a mnemonic, an optional operand address, and the
/// addressing mode. Address-requiring mnemonics always carry `Some` address;
/// the fixed-code instructions ignore theirs.
#[derive(Debug, Clone, Copy, PartialEq, Eq)]
pub struct OpCode {
    pub mnemonic: MnemonicType,
    pub address: Option<u16>,
    pub address_type: AddressType,
}

impl OpCode {
    /// Instructions in this form have an exact 16-bit encoding: an
    /// address-requiring mnemonic carries an address in the machine's legal
    /// 0-99 range.
    pub open spec fn encodable(self) -> bool {
        spec_requires_address(self.mnemonic) ==> (self.address is Some && self.address->0 < 100)
    }

    /// The 16-bit numeric form of an encodable instruction.
    pub open spec fn spec_encode(self) -> u16
        recommends
            self.encodable(),
    {
        let toggle = spec_pointer_toggle(self.address_type is Pointer);
        if spec_requires_address(self.mnemonic) {
            ((spec_base(self.mnemonic) + self.address->0) as u16) ^ toggle
        } else {
            match self.mnemonic {
                MnemonicType::INP => 901,
                MnemonicType::OUT => 902,
                MnemonicType::SOUT => 904,
                MnemonicType::POP => 998,
                MnemonicType::PUSH => 999,
                MnemonicType::HLT => 0,
                MnemonicType::COB => 0,
                MnemonicType::DAT => (if self.address is Some {
                    self.address->0
                } else {
                    0
                }) ^ toggle,
                _ => 0,
            }
        }
    }
}

/// What a raw word with the pointer flag already stripped decodes to.
pub open spec fn spec_decode_stripped(code: u16, at: AddressType) -> Result<OpCode, OpCodeError> {
    if 100 <= code && code <= 199 {
        Ok(OpCode { mnemonic: MnemonicType::ADD, address: Some((code - 100) as u16), address_type: at })
    } else if 200 <= code && code <= 299 {
        Ok(OpCode { mnemonic: MnemonicType::SUB, address: Some((code - 200) as u16), address_type: at })
    } else if 300 <= code && code <= 399 {
        Ok(OpCode { mnemonic: MnemonicType::STA, address: Some((code - 300) as u16), address_type: at })
    } else if 400 <= code && code <= 499 {
        Ok(OpCode { mnemonic: MnemonicType::MULT, address: Some((code - 400) as u16), address_type: at })
    } else if 500 <= code && code <= 599 {
        Ok(OpCode { mnemonic: MnemonicType::LDA, address: Some((code - 500) as u16), address_type: at })
    } else if 600 <= code && code <= 699 {
        Ok(OpCode { mnemonic: MnemonicType::BRA, address: Some((code - 600) as u16), address_type: at })
    } else if 700 <= code && code <= 799 {
        Ok(OpCode { mnemonic: MnemonicType::BRZ, address: Some((code - 700) as u16), address_type: at })
    } else if 800 <= code && code <= 899 {
        Ok(OpCode { mnemonic: MnemonicType::BRP, address: Some((code - 800) as u16), address_type: at })
    } else if code == 901 {
        Ok(OpCode { mnemonic: MnemonicType::INP, address: None, address_type: at })
    } else if code == 902 {
        Ok(OpCode { mnemonic: MnemonicType::OUT, address: None, address_type: at })
    } else if code == 904 {
        Ok(OpCode { mnemonic: MnemonicType::SOUT, address: None, address_type: at })
    } else if code == 999 {
        Ok(OpCode { mnemonic: MnemonicType::PUSH, address: None, address_type: at })
    } else if code == 998 {
        Ok(OpCode { mnemonic: MnemonicType::POP, address: None, address_type: at })
    } else if code == 0 {
        Ok(OpCode { mnemonic: MnemonicType::HLT, address: None, address_type: at })
    } else {
        Err(OpCodeError::InvalidOpCode(code))
    }
}

/// What a raw 16-bit word decodes to: the 1024 flag selects the pointer
/// addressing mode and is stripped before the range table applies.
pub open spec fn spec_decode(code: u16) -> Result<OpCode, OpCodeError> {
    if code & 1024 == 1024 {
        spec_decode_stripped(code ^ 1024, AddressType::Pointer)
    } else {
        spec_decode_stripped(code, AddressType::Literal)
    }
}

impl OpCode {
    /// Decodes a raw memory word; words outside the instruction table are
    /// rejected as `InvalidOpCode`, never treated as data.
    pub fn try_from(code: u16) -> (r: Result<OpCode, OpCodeError>)
        ensures
            r == spec_decode(code),
    {
        let mut code = code;
        let address_type: AddressType;
        if code & 1024 == 0 {
            address_type = AddressType::Literal;
        } else {
            proof {
                assert((code & 1024 == 0) || (code & 1024 == 1024)) by (bit_vector);
            }
            code = code ^ 1024;
            address_type = AddressType::Pointer;
        }
        if 100 <= code && code <= 199 {
            Ok(OpCode { mnemonic: MnemonicType::ADD, address: Some(code - 100), address_type })
        } else if 200 <= code && code <= 299 {
            Ok(OpCode { mnemonic: MnemonicType::SUB, address: Some(code - 200), address_type })
        } else if 300 <= code && code <= 399 {
            Ok(OpCode { mnemonic: MnemonicType::STA, address: Some(code - 300), address_type })
        } else if 400 <= code && code <= 499 {
            Ok(OpCode { mnemonic: MnemonicType::MULT, address: Some(code - 400), address_type })
        } else if 500 <= code && code <= 599 {
            Ok(OpCode { mnemonic: MnemonicType::LDA, address: Some(code - 500), address_type })
        } else if 600 <= code && code <= 699 {
            Ok(OpCode { mnemonic: MnemonicType::BRA, address: Some(code - 600), address_type })
        } else if 700 <= code && code <= 799 {
            Ok(OpCode { mnemonic: MnemonicType::BRZ, address: Some(code - 700), address_type })
        } else if 800 <= code && code <= 899 {
            Ok(OpCode { mnemonic: MnemonicType::BRP, address: Some(code - 800), address_type })
        } else if code == 901 {
            Ok(OpCode { mnemonic: MnemonicType::INP, address: None, address_type })
        } else if code == 902 {
            Ok(OpCode { mnemonic: MnemonicType::OUT, address: None, address_type })
        } else if code == 904 {
            Ok(OpCode { mnemonic: MnemonicType::SOUT, address: None, address_type })
        } else if code == 999 {
            Ok(OpCode { mnemonic: MnemonicType::PUSH, address: None, address_type })
        } else if code == 998 {
            Ok(OpCode { mnemonic: MnemonicType::POP, address: None, address_type })
        } else if code == 0 {
            Ok(OpCode { mnemonic: MnemonicType::HLT, address: None, address_type })
        } else {
            Err(OpCodeError::InvalidOpCode(code))
        }
    }

    /// Builds an instruction from a mnemonic, an optional operand and an
    /// addressing mode. Fails with `AddressExpected` exactly when an
    /// address-requiring mnemonic is given no operand; a DAT cell with no
    /// operand defaults to 0.
    pub fn try_from_mnemonic_type(
        mnemonic_type: MnemonicType,
        addresses: Option<u16>,
        address_type: AddressType,
    ) -> (r: Result<OpCode, OpCodeError>)
        ensures
            r == spec_try_from_mnemonic(mnemonic_type, addresses, address_type),
    {
        if matches!(mnemonic_type, MnemonicType::DAT) {
            let value = match addresses {
                Some(v) => v,
                None => 0,
            };
            Ok(OpCode { mnemonic: mnemonic_type, address: Some(value), address_type })
        } else if addresses.is_none() && requires_address(mnemonic_type) {
            Err(OpCodeError::AddressExpected(mnemonic_type))
        } else {
            Ok(OpCode { mnemonic: mnemonic_type, address: addresses, address_type })
        }
    }

    /// Like `try_from_mnemonic_type`, for callers that have already
    /// established that the operand is present where one is required.
    pub fn from_mnemonic_type(
        mnemonic_type: MnemonicType,
        addresses: Option<u16>,
        address_type: AddressType,
    ) -> (r: OpCode)
        requires
            spec_requires_address(mnemonic_type) ==> addresses is Some,
        ensures
            Ok::<OpCode, OpCodeError>(r) == spec_try_from_mnemonic(
                mnemonic_type,
                addresses,
                address_type,
            ),
    {
        let r = Self::try_from_mnemonic_type(mnemonic_type, addresses, address_type);
        match r {
            Ok(op) => op,
            Err(_) => {
                proof {
                    assert(false);
                }
                OpCode { mnemonic: mnemonic_type, address: addresses, address_type }
            },
        }
    }

    fn get_pointer_toggle(c: bool) -> (r: u16)
        ensures
            r == spec_pointer_toggle(c),
    {
        if c {
            1024
        } else {
            0
        }
    }

    /// The 16-bit numeric form of this instruction, as the encoding table
    /// gives it.
    pub fn to_numeric_representation(&self) -> (r: u16)
        requires
            self.encodable(),
        ensures
            r == self.spec_encode(),
    {
        let toggle = Self::get_pointer_toggle(self.address_type.is_pointer());
        match self.mnemonic {
            MnemonicType::ADD => (100 + self.address.unwrap()) ^ toggle,
            MnemonicType::SUB => (200 + self.address.unwrap()) ^ toggle,
            MnemonicType::STA => (300 + self.address.unwrap()) ^ toggle,
            MnemonicType::MULT => (400 + self.address.unwrap()) ^ toggle,
            MnemonicType::LDA => (500 + self.address.unwrap()) ^ toggle,
            MnemonicType::BRA => (600 + self.address.unwrap()) ^ toggle,
            MnemonicType::BRZ => (700 + self.address.unwrap()) ^ toggle,
            MnemonicType::BRP => (800 + self.address.unwrap()) ^ toggle,
            MnemonicType::INP => 901,
            MnemonicType::OUT => 902,
            MnemonicType::SOUT => 904,
            MnemonicType::POP => 998,
            MnemonicType::PUSH => 999,
            MnemonicType::HLT => 0,
            MnemonicType::COB => 0,
            MnemonicType::DAT => (match self.address {
                Some(v) => v,
                None => 0,
            }) ^ toggle,
        }
    }

    pub fn get_address(&self) -> (r: &Option<u16>)
        ensures
            *r == self.address,
    {
        &self.address
    }
}

/// What `try_from_mnemonic_type` returns.
pub open spec fn spec_try_from_mnemonic(
    m: MnemonicType,
    addresses: Option<u16>,
    at: AddressType,
) -> Result<OpCode, OpCodeError> {
    if m is DAT {
        Ok(
            OpCode {
                mnemonic: m,
                address: Some(if addresses is Some { addresses->0 } else { 0 }),
                address_type: at,
            },
        )
    } else if addresses is None && spec_requires_address(m) {
        Err(OpCodeError::AddressExpected(m))
    } else {
        Ok(OpCode { mnemonic: m, address: addresses, address_type: at })
    }
}

/// The numeric form of the instruction `try_from_mnemonic_type` builds from
/// a mnemonic, an operand and an addressing mode.
pub open spec fn spec_encode_of_mnemonic(
    m: MnemonicType,
    addresses: Option<u16>,
    at: AddressType,
) -> u16 {
    match spec_try_from_mnemonic(m, addresses, at) {
        Ok(op) => op.spec_encode(),
        Err(_) => 0,
    }
}

/// Whether this mnemonic must carry an operand address.
pub fn requires_address(m: MnemonicType) -> (r: bool)
    ensures
        r == spec_requires_address(m),
{
    matches!(
        m,
        MnemonicType::ADD | MnemonicType::SUB | MnemonicType::STA | MnemonicType::LDA
            | MnemonicType::BRA | MnemonicType::BRZ | MnemonicType::BRP | MnemonicType::MULT
    )
}

/// The mnemonic named by a token, if any. Names are the upper-case ASCII
/// spellings of the sixteen mnemonics, matched case-sensitively.
pub open spec fn spec_mnemonic_of(s: Seq<u8>) -> Option<MnemonicType> {
    if s == seq![65u8, 68u8, 68u8] {
        Some(MnemonicType::ADD)
    } else if s == seq![83u8, 85u8, 66u8] {
        Some(MnemonicType::SUB)
    } else if s == seq![83u8, 84u8, 65u8] {
        Some(MnemonicType::STA)
    } else if s == seq![76u8, 68u8, 65u8] {
        Some(MnemonicType::LDA)
    } else if s == seq![66u8, 82u8, 65u8] {
        Some(MnemonicType::BRA)
    } else if s == seq![66u8, 82u8, 90u8] {
        Some(MnemonicType::BRZ)
    } else if s == seq![66u8, 82u8, 80u8] {
        Some(MnemonicType::BRP)
    } else if s == seq![73u8, 78u8, 80u8] {
        Some(MnemonicType::INP)
    } else if s == seq![79u8, 85u8, 84u8] {
        Some(MnemonicType::OUT)
    } else if s == seq![72u8, 76u8, 84u8] {
        Some(MnemonicType::HLT)
    } else if s == seq![67u8, 79u8, 66u8] {
        Some(MnemonicType::COB)
    } else if s == seq![68u8, 65u8, 84u8] {
        Some(MnemonicType::DAT)
    } else if s == seq![80u8, 79u8, 80u8] {
        Some(MnemonicType::POP)
    } else if s == seq![83u8, 79u8, 85u8, 84u8] {
        Some(MnemonicType::SOUT)
    } else if s == seq![77u8, 85u8, 76u8, 84u8] {
        Some(MnemonicType::MULT)
    } else if s == seq![80u8, 85u8, 83u8, 72u8] {
        Some(MnemonicType::PUSH)
    } else {
        None
    }
}

impl MnemonicType {
    /// The mnemonic a token of source text names, if any.
    pub fn from_bytes(s: &[u8]) -> (r: Option<MnemonicType>)
        ensures
            r == spec_mnemonic_of(s@),
    {
        proof {
            if s@.len() == 3 {
                assert(s@ =~= seq![s@[0], s@[1], s@[2]]);
            }
            if s@.len() == 4 {
                assert(s@ =~= seq![s@[0], s@[1], s@[2], s@[3]]);
            }
        }
        if s.len() == 3 {
            match (s[0], s[1], s[2]) {
                (65u8, 68u8, 68u8) => Some(MnemonicType::ADD),
                (83u8, 85u8, 66u8) => Some(MnemonicType::SUB),
                (83u8, 84u8, 65u8) => Some(MnemonicType::STA),
                (76u8, 68u8, 65u8) => Some(MnemonicType::LDA),
                (66u8, 82u8, 65u8) => Some(MnemonicType::BRA),
                (66u8, 82u8, 90u8) => Some(MnemonicType::BRZ),
                (66u8, 82u8, 80u8) => Some(MnemonicType::BRP),
                (73u8, 78u8, 80u8) => Some(MnemonicType::INP),
                (79u8, 85u8, 84u8) => Some(MnemonicType::OUT),
                (72u8, 76u8, 84u8) => Some(MnemonicType::HLT),
                (67u8, 79u8, 66u8) => Some(MnemonicType::COB),
                (68u8, 65u8, 84u8) => Some(MnemonicType::DAT),
                (80u8, 79u8, 80u8) => Some(MnemonicType::POP),
                _ => None,
            }
        } else if s.len() == 4 {
            match (s[0], s[1], s[2], s[3]) {
                (83u8, 79u8, 85u8, 84u8) => Some(MnemonicType::SOUT),
                (77u8, 85u8, 76u8, 84u8) => Some(MnemonicType::MULT),
                (80u8, 85u8, 83u8, 72u8) => Some(MnemonicType::PUSH),
                _ => None,
            }
        } else {
            None
        }
    }

    /// The mnemonic a piece of source text names, if any.
    pub fn from_string(s: &str) -> (r: Option<MnemonicType>)
        ensures
            r == spec_mnemonic_of(s.spec_bytes()),
    {
        Self::from_bytes(s.as_bytes())
    }
}

/// The codec is lossless: every address-requiring instruction with an
/// operand in the legal 0-99 range decodes back exactly, in both addressing
/// modes.
pub proof fn lemma_codec_round_trip(m: MnemonicType, addr: u16, at: AddressType)
    requires
        spec_requires_address(m),
        addr < 100,
    ensures
        ({
            let op = OpCode { mnemonic: m, address: Some(addr), address_type: at };
            spec_decode(op.spec_encode()) == Ok::<OpCode, OpCodeError>(op)
        }),
{
    let op = OpCode { mnemonic: m, address: Some(addr), address_type: at };
    let base = spec_base(m);
    let stripped = (base + addr) as u16;
    assert(100 <= stripped && stripped <= 899);
    if at is Pointer {
        let enc = stripped ^ 1024;
        assert(op.spec_encode() == enc);
        assert(100 <= stripped && stripped <= 899 ==> (stripped ^ 1024) & 1024 == 1024)
            by (bit_vector);
        assert(100 <= stripped && stripped <= 899 ==> (stripped ^ 1024) ^ 1024 == stripped)
            by (bit_vector);
        assert(spec_decode(enc) == spec_decode_stripped(stripped, AddressType::Pointer));
    } else {
        assert(100 <= stripped && stripped <= 899 ==> stripped ^ 0 == stripped) by (bit_vector);
        assert(100 <= stripped && stripped <= 899 ==> stripped & 1024 == 0) by (bit_vector);
        assert(op.spec_encode() == stripped);
        assert(spec_decode(stripped) == spec_decode_stripped(stripped, AddressType::Literal));
    }
}

/// Every instruction the decoder accepts is encodable: its operand, where
/// one is present, lies in the legal 0-99 range.
pub proof fn lemma_decode_wf(code: u16)
    ensures
        spec_decode(code) matches Ok(op) ==> op.encodable() && !(op.mnemonic is DAT) && !(
        op.mnemonic is COB),
{
}

} // verus!
