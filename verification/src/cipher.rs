//! The block cipher: AES-128 in CBC mode, as the `aes` and `block-modes`
//! crates compute it. Nothing in this file is proved; the rest of the
//! library rests on the one contract below.

use aes::Aes128;
use block_modes::block_padding::NoPadding;
use block_modes::BlockMode;
use block_modes::Cbc;
use vstd::prelude::*;

verus! {

/// The plaintext block that AES-128 in CBC mode gives for `block`, the first
/// block of a ciphertext, under `key` and the initialization vector `iv`.
/// It stands for the result of `Cbc::<Aes128, NoPadding>::new_var(key, iv)`
/// followed by `decrypt` on that one block, which depends on these three
/// values and on nothing else.
pub uninterp spec fn aes128_cbc_first_block(key: Seq<u8>, iv: Seq<u8>, block: Seq<u8>) -> Seq<u8>;

/// Decrypts one block with `block_modes::Cbc<aes::Aes128, NoPadding>`:
/// `BlockMode::new_var` on the key and the initialization vector, then
/// `BlockMode::decrypt` on a copy of the block. The contract names the
/// result and claims nothing else of it. Neither call fails here: `new_var`
/// fails only where the key or the vector is not sixteen bytes long, and
/// `decrypt` without padding only where the buffer is no whole number of
/// blocks.
#[verifier::external_body]
pub(crate) fn decrypt_first_block(key: &[u8; 16], iv: &[u8; 16], block: &[u8; 16]) -> (plain: [u8; 16])
    ensures
        plain@ == aes128_cbc_first_block(key@, iv@, block@),
{
    let cipher = Cbc::<Aes128, NoPadding>::new_var(key, iv).unwrap();
    let mut plain = *block;
    cipher.decrypt(&mut plain).unwrap();
    plain
}

} // verus!
