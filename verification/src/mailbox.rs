//! The machine's memory: exactly 100 words with bounds-checked access, and
//! the raw binary image format of exactly 200 bytes — 100 sequential 16-bit
//! words, least significant byte first, no header and no checksum.

use vstd::prelude::*;

use crate::opcodes::{
    spec_encode_of_mnemonic, spec_requires_address, AddressType, MnemonicType, OpCode,
};

verus! {

/// How reading a binary memory image can fail: the image did not hold
/// exactly the 200 bytes of 100 words. (Filesystem failures are a concern of
/// the host that produced the bytes, not of the memory itself.)
#[derive(Debug, Clone, Copy, PartialEq, Eq, Structural)]
pub enum MailboxError {
    WrongByteCount(usize),
}

/// The low image byte of a word.
pub open spec fn spec_lo(w: u16) -> u8 {
    (w % 256) as u8
}

/// The high image byte of a word.
pub open spec fn spec_hi(w: u16) -> u8 {
    (w / 256) as u8
}

/// The word two image bytes hold.
pub open spec fn spec_word(lo: u8, hi: u8) -> u16 {
    (lo + 256 * hi) as u16
}

/// The 200-byte binary image of a 100-word memory.
pub open spec fn spec_image(words: Seq<u16>) -> Seq<u8>
    recommends
        words.len() == 100,
{
    Seq::new(200, |i: int| if i % 2 == 0 {
        spec_lo(words[i / 2])
    } else {
        spec_hi(words[i / 2])
    })
}

/// The 100 words a 200-byte binary image holds.
pub open spec fn spec_words_of_image(bytes: Seq<u8>) -> Seq<u16>
    recommends
        bytes.len() == 200,
{
    Seq::new(100, |i: int| spec_word(bytes[2 * i], bytes[2 * i + 1]))
}

/// A fixed store of exactly 100 words, indexed 0-99.
#[derive(Debug, Clone, PartialEq, Eq)]
pub struct Mailbox {
    words: Vec<u16>,
}

impl View for Mailbox {
    type V = Seq<u16>;

    closed spec fn view(&self) -> Seq<u16> {
        self.words@
    }
}

impl Mailbox {
    /// The memory's structural invariant: exactly 100 words.
    pub open spec fn inv(&self) -> bool {
        self@.len() == 100
    }

    /// A memory of 100 zeroed words.
    pub fn new() -> (r: Mailbox)
        ensures
            r.inv(),
            forall|i: int| 0 <= i < 100 ==> r@[i] == 0u16,
    {
        let mut words: Vec<u16> = Vec::new();
        let mut i: usize = 0;
        while i < 100
            invariant
                i <= 100,
                words@.len() == i,
                forall|j: int| 0 <= j < i ==> words@[j] == 0u16,
            decreases 100 - i,
        {
            words.push(0);
            i = i + 1;
        }
        Mailbox { words }
    }

    /// A memory whose first cells hold the given words and whose remaining
    /// cells are zero.
    pub fn from_words(given: &Vec<u16>) -> (r: Mailbox)
        requires
            given@.len() <= 100,
        ensures
            r.inv(),
            forall|i: int| 0 <= i < given@.len() ==> r@[i] == given@[i],
            forall|i: int| given@.len() <= i < 100 ==> r@[i] == 0u16,
    {
        let mut m = Mailbox::new();
        let mut i: usize = 0;
        while i < given.len()
            invariant
                given@.len() <= 100,
                i <= given@.len(),
                m.inv(),
                forall|j: int| 0 <= j < i ==> m@[j] == given@[j],
                forall|j: int| i <= j < 100 ==> m@[j] == 0u16,
            decreases given@.len() - i,
        {
            m.write(i as u16, given[i]);
            i = i + 1;
        }
        m
    }

    /// The word at an address. Addresses run 0-99 only.
    pub fn get(&self, index: u16) -> (r: u16)
        requires
            self.inv(),
            index < 100,
        ensures
            r == self@[index as int],
    {
        self.words[index as usize]
    }

    /// Replaces the word at an address. Addresses run 0-99 only.
    pub fn write(&mut self, index: u16, value: u16)
        requires
            old(self).inv(),
            index < 100,
        ensures
            final(self).inv(),
            final(self)@ == old(self)@.update(index as int, value),
    {
        self.words.set(index as usize, value);
    }

    /// Replaces the word at an address with a data value in the machine's
    /// legal 0-999 range.
    pub fn set(&mut self, index: u16, value: u16)
        requires
            old(self).inv(),
            index < 100,
            value <= 999,
        ensures
            final(self).inv(),
            final(self)@ == old(self)@.update(index as int, value),
    {
        self.write(index, value);
    }

    /// Encodes an instruction and stores its numeric form at an address.
    pub fn set_instruction(
        &mut self,
        index: u16,
        mnemonic: MnemonicType,
        address: Option<u16>,
        address_type: AddressType,
    )
        requires
            old(self).inv(),
            index < 100,
            spec_requires_address(mnemonic) ==> (address is Some && address->0 < 100),
        ensures
            final(self).inv(),
            final(self)@ == old(self)@.update(
                index as int,
                spec_encode_of_mnemonic(mnemonic, address, address_type),
            ),
    {
        let op = OpCode::from_mnemonic_type(mnemonic, address, address_type);
        let code = op.to_numeric_representation();
        self.write(index, code);
    }

    /// The raw binary image of this memory: 200 bytes, two per word.
    pub fn export_to_bytes(&self) -> (r: Vec<u8>)
        requires
            self.inv(),
        ensures
            r@ == spec_image(self@),
    {
        let mut bytes: Vec<u8> = Vec::new();
        let mut i: usize = 0;
        while i < 100
            invariant
                self.inv(),
                i <= 100,
                bytes@.len() == 2 * i,
                forall|j: int|
                    0 <= j < i ==> bytes@[2 * j] == spec_lo(self@[j]) && bytes@[2 * j + 1]
                        == spec_hi(self@[j]),
            decreases 100 - i,
        {
            let w = self.get(i as u16);
            bytes.push((w % 256) as u8);
            bytes.push((w / 256) as u8);
            i = i + 1;
        }
        proof {
            assert(bytes@ =~= spec_image(self@));
        }
        bytes
    }

    /// Reads a memory back from its raw binary image. An image of any other
    /// byte count is rejected, never padded or truncated.
    pub fn read_from_u8_slice(slice: &[u8]) -> (r: Result<Mailbox, MailboxError>)
        ensures
            slice@.len() == 200 ==> (r matches Ok(m) && m.inv() && m@ == spec_words_of_image(
                slice@,
            )),
            slice@.len() != 200 ==> r == Err::<Mailbox, MailboxError>(
                MailboxError::WrongByteCount(slice@.len() as usize),
            ),
    {
        if slice.len() != 200 {
            return Err(MailboxError::WrongByteCount(slice.len()));
        }
        let mut words: Vec<u16> = Vec::new();
        let mut i: usize = 0;
        while i < 100
            invariant
                slice@.len() == 200,
                i <= 100,
                words@.len() == i,
                forall|j: int|
                    0 <= j < i ==> words@[j] == spec_word(slice@[2 * j], slice@[2 * j + 1]),
            decreases 100 - i,
        {
            let lo = slice[2 * i];
            let hi = slice[2 * i + 1];
            let w: u16 = lo as u16 + 256 * (hi as u16);
            words.push(w);
            i = i + 1;
        }
        let m = Mailbox { words };
        proof {
            assert(m@ =~= spec_words_of_image(slice@));
        }
        Ok(m)
    }
}

/// Reading back the image of any memory restores that memory exactly, word
/// for word.
pub proof fn lemma_image_round_trip(words: Seq<u16>)
    requires
        words.len() == 100,
    ensures
        spec_words_of_image(spec_image(words)) == words,
{
    let bytes = spec_image(words);
    assert forall|i: int| 0 <= i < 100 implies spec_words_of_image(bytes)[i] == words[i] by {
        assert(bytes[2 * i] == spec_lo(words[i]));
        assert(bytes[2 * i + 1] == spec_hi(words[i]));
        assert(spec_word(spec_lo(words[i]), spec_hi(words[i])) == words[i]) by {
            vstd::arithmetic::div_mod::lemma_fundamental_div_mod(words[i] as int, 256);
        };
    };
    assert(spec_words_of_image(spec_image(words)) =~= words);
}

} // verus!
