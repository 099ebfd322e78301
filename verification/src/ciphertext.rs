//! The ciphertext store: the bytes under attack, cut into cipher blocks.

use vstd::prelude::*;

verus! {

/// The number of blocks that `len` bytes fill, the last one perhaps in part.
pub open spec fn block_count(len: nat) -> nat {
    (len + 15) / 16
}

/// Block `k` of `data`: its sixteen bytes from `16 * k` on, with zero where
/// `data` has ended.
pub open spec fn block_at(data: Seq<u8>, k: int) -> Seq<u8> {
    Seq::new(
        16,
        |j: int|
            if 16 * k + j < data.len() {
                data[16 * k + j]
            } else {
                0u8
            },
    )
}

/// `data` cut into blocks, in order, the last one padded with zero.
pub open spec fn blocks_of(data: Seq<u8>) -> Seq<Seq<u8>> {
    Seq::new(block_count(data.len()), |k: int| block_at(data, k))
}

/// A ciphertext as a sequence of whole blocks. It does not change once made.
pub struct Ciphertext {
    blocks: Vec<[u8; 16]>,
}

impl View for Ciphertext {
    type V = Seq<Seq<u8>>;

    closed spec fn view(&self) -> Seq<Seq<u8>> {
        Seq::new(self.blocks@.len(), |k: int| self.blocks@[k]@)
    }
}

impl Ciphertext {
    /// Cuts the bytes of a file into blocks. A last block that the bytes do
    /// not fill is padded with zero; no bytes give no block.
    pub fn from_bytes(data: &[u8]) -> (ciphertext: Ciphertext)
        ensures
            ciphertext@ == blocks_of(data@),
    {
        let mut blocks: Vec<[u8; 16]> = Vec::new();
        let whole: usize = data.len() / 16;
        let n: usize = if data.len() % 16 == 0 {
            whole
        } else {
            whole + 1
        };
        let mut k: usize = 0;
        while k < n
            invariant
                k <= n,
                n == block_count(data@.len()),
                16 * n < data@.len() + 16,
                data@.len() <= usize::MAX,
                blocks@.len() == k,
                forall|i: int| 0 <= i < k ==> (#[trigger] blocks@[i])@ == block_at(data@, i),
            decreases n - k,
        {
            let base: usize = k * 16;
            let mut block: [u8; 16] = [0u8; 16];
            let mut j: usize = 0;
            while j < 16 && j < data.len() - base
                invariant
                    base == 16 * k,
                    base < data@.len(),
                    j <= 16,
                    j <= data@.len() - base,
                    forall|i: int| 0 <= i < j ==> block@[i] == data@[base + i],
                    forall|i: int| j <= i < 16 ==> block@[i] == 0,
                decreases 16 - j,
            {
                block[j] = data[base + j];
                j += 1;
            }
            assert forall|i: int| 0 <= i < 16 implies block@[i] == block_at(data@, k as int)[i] by {
                if i < j {
                    assert(block@[i] == data@[base + i]);
                }
            }
            assert(block@ =~= block_at(data@, k as int));
            blocks.push(block);
            k += 1;
        }
        let ciphertext = Ciphertext { blocks };
        assert(ciphertext@ =~= blocks_of(data@));
        ciphertext
    }

    /// The number of blocks.
    pub fn len(&self) -> (n: usize)
        ensures
            n == self@.len(),
    {
        self.blocks.len()
    }

    /// The first block, which is the one that candidate keys are tried on;
    /// none where the ciphertext is empty.
    pub fn first_block(&self) -> (block: Option<[u8; 16]>)
        ensures
            block is Some <==> self@.len() > 0,
            block matches Some(b) ==> b@ == self@[0],
    {
        if self.blocks.len() > 0 {
            Some(self.blocks[0])
        } else {
            None
        }
    }

    /// All the blocks, in the order of the file.
    pub fn blocks(&self) -> (blocks: &Vec<[u8; 16]>)
        ensures
            blocks@.len() == self@.len(),
            forall|k: int| 0 <= k < blocks@.len() ==> (#[trigger] blocks@[k])@ == self@[k],
    {
        &self.blocks
    }
}

} // verus!
