//! The reduced instruction codec used by the minimal host variant: the same
//! decimal hundreds-encoding, but without MULT, PUSH and POP and without the
//! pointer addressing mode. A raw word in one of the ranges this variant
//! does not define — 400-499 among them — decodes to an error, never to a
//! data cell.

use vstd::prelude::*;

use crate::opcodes::MnemonicType;

verus! {

#[derive(Debug, Clone, Copy, PartialEq, Eq, Structural)]
pub enum OpCodeError {
    InvalidOpCode(u16),
}

/// A decoded instruction of the reduced set: a mnemonic and an optional
/// operand address, with no addressing mode.
#[derive(Debug, Clone, Copy, PartialEq, Eq)]
pub struct OpCode {
    pub mnemonic: MnemonicType,
    pub address: Option<u16>,
}

/// The mnemonics the reduced instruction set defines.
pub open spec fn spec_compact_supported(m: MnemonicType) -> bool {
    !(m is MULT || m is PUSH || m is POP)
}

/// True of the reduced-set mnemonics that must carry an operand address.
pub open spec fn spec_compact_requires_address(m: MnemonicType) -> bool {
    m is ADD || m is SUB || m is STA || m is LDA || m is BRA || m is BRZ || m is BRP
}

/// What a raw word decodes to in the reduced set: the 400-499 range and the
/// stack codes have no definition here and are invalid.
pub open spec fn spec_compact_decode(code: u16) -> Result<OpCode, OpCodeError> {
    if 100 <= code && code <= 199 {
        Ok(OpCode { mnemonic: MnemonicType::ADD, address: Some((code - 100) as u16) })
    } else if 200 <= code && code <= 299 {
        Ok(OpCode { mnemonic: MnemonicType::SUB, address: Some((code - 200) as u16) })
    } else if 300 <= code && code <= 399 {
        Ok(OpCode { mnemonic: MnemonicType::STA, address: Some((code - 300) as u16) })
    } else if 500 <= code && code <= 599 {
        Ok(OpCode { mnemonic: MnemonicType::LDA, address: Some((code - 500) as u16) })
    } else if 600 <= code && code <= 699 {
        Ok(OpCode { mnemonic: MnemonicType::BRA, address: Some((code - 600) as u16) })
    } else if 700 <= code && code <= 799 {
        Ok(OpCode { mnemonic: MnemonicType::BRZ, address: Some((code - 700) as u16) })
    } else if 800 <= code && code <= 899 {
        Ok(OpCode { mnemonic: MnemonicType::BRP, address: Some((code - 800) as u16) })
    } else if code == 901 {
        Ok(OpCode { mnemonic: MnemonicType::INP, address: None })
    } else if code == 902 {
        Ok(OpCode { mnemonic: MnemonicType::OUT, address: None })
    } else if code == 904 {
        Ok(OpCode { mnemonic: MnemonicType::SOUT, address: None })
    } else if code == 0 {
        Ok(OpCode { mnemonic: MnemonicType::HLT, address: None })
    } else {
        Err(OpCodeError::InvalidOpCode(code))
    }
}

/// The numeric form of a reduced-set instruction.
pub open spec fn spec_compact_encode(op: OpCode) -> u16
    recommends
        op.compact_encodable(),
{
    match op.mnemonic {
        MnemonicType::ADD => (100 + op.address->0) as u16,
        MnemonicType::SUB => (200 + op.address->0) as u16,
        MnemonicType::STA => (300 + op.address->0) as u16,
        MnemonicType::LDA => (500 + op.address->0) as u16,
        MnemonicType::BRA => (600 + op.address->0) as u16,
        MnemonicType::BRZ => (700 + op.address->0) as u16,
        MnemonicType::BRP => (800 + op.address->0) as u16,
        MnemonicType::INP => 901,
        MnemonicType::OUT => 902,
        MnemonicType::SOUT => 904,
        MnemonicType::HLT => 0,
        MnemonicType::COB => 0,
        MnemonicType::DAT => if op.address is Some {
            op.address->0
        } else {
            0
        },
        _ => 0,
    }
}

impl OpCode {
    /// Instructions in this form have an exact numeric encoding in the
    /// reduced set.
    pub open spec fn compact_encodable(self) -> bool {
        &&& spec_compact_supported(self.mnemonic)
        &&& (spec_compact_requires_address(self.mnemonic) ==> (self.address is Some
            && self.address->0 < 100))
        &&& (self.mnemonic is DAT && self.address is Some ==> self.address->0 <= 999)
    }

    /// Decodes a raw memory word against the reduced instruction table;
    /// words outside it — the MULT range included — are rejected, never
    /// treated as data.
    pub fn try_from(code: u16) -> (r: Result<OpCode, OpCodeError>)
        ensures
            r == spec_compact_decode(code),
    {
        if 100 <= code && code <= 199 {
            Ok(OpCode { mnemonic: MnemonicType::ADD, address: Some(code - 100) })
        } else if 200 <= code && code <= 299 {
            Ok(OpCode { mnemonic: MnemonicType::SUB, address: Some(code - 200) })
        } else if 300 <= code && code <= 399 {
            Ok(OpCode { mnemonic: MnemonicType::STA, address: Some(code - 300) })
        } else if 500 <= code && code <= 599 {
            Ok(OpCode { mnemonic: MnemonicType::LDA, address: Some(code - 500) })
        } else if 600 <= code && code <= 699 {
            Ok(OpCode { mnemonic: MnemonicType::BRA, address: Some(code - 600) })
        } else if 700 <= code && code <= 799 {
            Ok(OpCode { mnemonic: MnemonicType::BRZ, address: Some(code - 700) })
        } else if 800 <= code && code <= 899 {
            Ok(OpCode { mnemonic: MnemonicType::BRP, address: Some(code - 800) })
        } else if code == 901 {
            Ok(OpCode { mnemonic: MnemonicType::INP, address: None })
        } else if code == 902 {
            Ok(OpCode { mnemonic: MnemonicType::OUT, address: None })
        } else if code == 904 {
            Ok(OpCode { mnemonic: MnemonicType::SOUT, address: None })
        } else if code == 0 {
            Ok(OpCode { mnemonic: MnemonicType::HLT, address: None })
        } else {
            Err(OpCodeError::InvalidOpCode(code))
        }
    }

    /// Builds a reduced-set instruction from a mnemonic and its operand; a
    /// DAT cell with no operand defaults to 0.
    pub fn from_mnemonic_type(mnemonic_type: MnemonicType, addresses: Option<u16>) -> (r: OpCode)
        requires
            spec_compact_supported(mnemonic_type),
            spec_compact_requires_address(mnemonic_type) ==> addresses is Some,
        ensures
            r.mnemonic == mnemonic_type,
            r.address == (if mnemonic_type is DAT && addresses is None {
                Some(0u16)
            } else {
                addresses
            }),
    {
        if matches!(mnemonic_type, MnemonicType::DAT) && addresses.is_none() {
            OpCode { mnemonic: mnemonic_type, address: Some(0) }
        } else {
            OpCode { mnemonic: mnemonic_type, address: addresses }
        }
    }

    /// The numeric form of this instruction in the reduced encoding.
    pub fn to_numeric_representation(&self) -> (r: u16)
        requires
            self.compact_encodable(),
        ensures
            r == spec_compact_encode(*self),
    {
        match self.mnemonic {
            MnemonicType::ADD => 100 + self.address.unwrap(),
            MnemonicType::SUB => 200 + self.address.unwrap(),
            MnemonicType::STA => 300 + self.address.unwrap(),
            MnemonicType::LDA => 500 + self.address.unwrap(),
            MnemonicType::BRA => 600 + self.address.unwrap(),
            MnemonicType::BRZ => 700 + self.address.unwrap(),
            MnemonicType::BRP => 800 + self.address.unwrap(),
            MnemonicType::INP => 901,
            MnemonicType::OUT => 902,
            MnemonicType::SOUT => 904,
            MnemonicType::HLT => 0,
            MnemonicType::COB => 0,
            MnemonicType::DAT => match self.address {
                Some(v) => v,
                None => 0,
            },
            MnemonicType::MULT | MnemonicType::PUSH | MnemonicType::POP => {
                proof {
                    assert(false);
                }
                0
            },
        }
    }
}

/// The reduced codec is lossless on its own instruction set: every
/// address-requiring instruction with an operand in the legal 0-99 range
/// decodes back exactly.
pub proof fn lemma_compact_round_trip(m: MnemonicType, addr: u16)
    requires
        spec_compact_requires_address(m),
        addr < 100,
    ensures
        ({
            let op = OpCode { mnemonic: m, address: Some(addr) };
            spec_compact_decode(spec_compact_encode(op)) == Ok::<OpCode, OpCodeError>(op)
        }),
{
}

} // verus!
