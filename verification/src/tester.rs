//! The key tester: does a candidate key decrypt the first ciphertext block to
//! the known plaintext?

use crate::cipher::aes128_cbc_first_block;
use crate::cipher::decrypt_first_block;
use crate::ciphertext::Ciphertext;
use crate::hex::decode_hex;
use crate::hex::parse_key;
use crate::hex::spells_key;
use vstd::prelude::*;
use vstd::string::StringSliceAdditionalSpecFns;

verus! {

/// Whether `block` begins with the bytes of `prefix`.
pub open spec fn begins_with(block: Seq<u8>, prefix: Seq<u8>) -> bool {
    &&& prefix.len() <= block.len()
    &&& forall|i: int| 0 <= i < prefix.len() ==> block[i] == prefix[i]
}

/// Whether `key` decrypts `block` under `iv` to a plaintext that begins with
/// `known`.
pub open spec fn key_matches(key: Seq<u8>, iv: Seq<u8>, block: Seq<u8>, known: Seq<u8>) -> bool {
    begins_with(aes128_cbc_first_block(key, iv, block), known)
}

/// Compares a decrypted block with the known plaintext, byte by byte, and
/// stops at the first difference. Bytes of the block behind the known
/// plaintext are not looked at.
pub fn has_prefix(block: &[u8; 16], known_plaintext: &[u8]) -> (matched: bool)
    requires
        known_plaintext@.len() <= 16,
    ensures
        matched == begins_with(block@, known_plaintext@),
{
    let mut i: usize = 0;
    while i < known_plaintext.len()
        invariant
            i <= known_plaintext@.len() <= 16,
            forall|j: int| 0 <= j < i ==> block@[j] == known_plaintext@[j],
        decreases known_plaintext.len() - i,
    {
        if known_plaintext[i] != block[i] {
            return false;
        }
        i += 1;
    }
    true
}

/// Tries one key: decrypts the first of `file_blocks` with `key` and `iv`
/// and compares the result with `known_plaintext`.
pub fn check_key(
    key: &[u8; 16],
    iv: &[u8; 16],
    file_blocks: &Vec<[u8; 16]>,
    known_plaintext: &Vec<u8>,
) -> (matched: bool)
    requires
        file_blocks@.len() > 0,
        known_plaintext@.len() <= 16,
    ensures
        matched == key_matches(key@, iv@, file_blocks@[0]@, known_plaintext@),
{
    let block = decrypt_first_block(key, iv, &file_blocks[0]);
    has_prefix(&block, known_plaintext.as_slice())
}

/// Why a key tester could not be set up.
#[derive(Clone, Copy, Debug, PartialEq, Eq, Structural)]
pub enum SetupError {
    /// The ciphertext has no block to try keys on.
    EmptyCiphertext,
    /// The known plaintext is longer than one block.
    PlaintextTooLong,
}

/// What every candidate is tried against: the first ciphertext block, the
/// initialization vector and the known plaintext. None of them changes once
/// the tester is made.
pub struct KeyTester {
    block: [u8; 16],
    iv: [u8; 16],
    known: Vec<u8>,
}

impl KeyTester {
    #[verifier::type_invariant]
    spec fn well_formed(self) -> bool {
        self.known@.len() <= 16
    }

    /// The first ciphertext block.
    pub closed spec fn block(self) -> Seq<u8> {
        self.block@
    }

    /// The initialization vector.
    pub closed spec fn iv(self) -> Seq<u8> {
        self.iv@
    }

    /// The known plaintext.
    pub closed spec fn known_plaintext(self) -> Seq<u8> {
        self.known@
    }

    /// Whether the sixteen bytes `key` are a key that matches.
    pub open spec fn matches(self, key: Seq<u8>) -> bool {
        key_matches(key, self.iv(), self.block(), self.known_plaintext())
    }

    /// Whether the candidate `text` is accepted: it spells a key, and that
    /// key matches. Text that spells no key is never accepted.
    pub open spec fn accepts(self, text: Seq<u8>) -> bool {
        spells_key(text) && self.matches(decode_hex(text))
    }

    /// A tester for the first block of `ciphertext`. In chaining mode `iv`
    /// is the initialization vector; without one, the vector is all zero.
    pub fn new(ciphertext: &Ciphertext, known_plaintext: Vec<u8>, iv: Option<[u8; 16]>) -> (made:
        Result<KeyTester, SetupError>)
        ensures
            made == Err::<KeyTester, SetupError>(SetupError::EmptyCiphertext) <==> ciphertext@.len()
                == 0,
            made == Err::<KeyTester, SetupError>(SetupError::PlaintextTooLong) <==> ciphertext@.len()
                > 0 && known_plaintext@.len() > 16,
            made matches Ok(tester) ==> {
                &&& tester.block() == ciphertext@[0]
                &&& tester.iv() == match iv {
                    Some(v) => v@,
                    None => Seq::new(16, |i: int| 0u8),
                }
                &&& tester.known_plaintext() == known_plaintext@
            },
    {
        match ciphertext.first_block() {
            None => Err(SetupError::EmptyCiphertext),
            Some(block) => {
                if known_plaintext.len() > 16 {
                    Err(SetupError::PlaintextTooLong)
                } else {
                    let iv: [u8; 16] = match iv {
                        Some(v) => v,
                        None => {
                            let zero: [u8; 16] = [0u8; 16];
                            assert(zero@ =~= Seq::new(16, |i: int| 0u8));
                            zero
                        },
                    };
                    Ok(KeyTester { block, iv, known: known_plaintext })
                }
            },
        }
    }

    /// Tries the key `key`.
    pub fn test_key(&self, key: &[u8; 16]) -> (matched: bool)
        ensures
            matched == self.matches(key@),
    {
        proof {
            use_type_invariant(self);
        }
        let plain = decrypt_first_block(key, &self.iv, &self.block);
        has_prefix(&plain, self.known.as_slice())
    }

    /// Tries the candidate on one line of text. A line that does not spell a
    /// key fails the test without being tried.
    pub fn test_candidate(&self, line: &str) -> (matched: bool)
        ensures
            matched == self.accepts(line.spec_bytes()),
    {
        match parse_key(line) {
            Some(key) => self.test_key(&key),
            None => false,
        }
    }
}

/// A candidate with an odd number of hex digits, or with none, is never
/// accepted, whatever the ciphertext and the known plaintext are.
pub proof fn lemma_malformed_is_rejected(tester: KeyTester, text: Seq<u8>)
    requires
        crate::hex::nibbles(text).len() % 2 == 1 || crate::hex::nibbles(text).len() == 0,
    ensures
        !tester.accepts(text),
{
}

} // verus!
