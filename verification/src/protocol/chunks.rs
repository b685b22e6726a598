//! Splitting a payload into a chain of digest-linked blocks.

use sha2::{Digest, Sha256};
use vstd::prelude::*;

verus! {

/// Most data bytes a block carries.
pub const BLOCK_DATA_SIZE: usize = 180;

/// The SHA-256 digest of a byte string.
pub uninterp spec fn sha256_digest(data: Seq<u8>) -> Seq<u8>;

/// SHA-256 of `data`, computed by `sha2::Sha256` (`new`, `update`,
/// `finalize`). The contract only names the digest: it is a function of the
/// bytes alone.
#[verifier::external_body]
pub fn sha256(data: &[u8]) -> (digest: [u8; 32])
    ensures
        digest@ == sha256_digest(data@),
{
    let mut hasher = Sha256::new();
    hasher.update(data);
    hasher.finalize().into()
}

/// Up to 180 bytes of data and the digest of the block that follows (all
/// zeros for the last block).
#[derive(Debug, Clone)]
pub struct Block {
    pub next_hash: [u8; 32],
    pub data: Vec<u8>,
}

/// A block as a mathematical value.
pub struct BlockView {
    pub next_hash: Seq<u8>,
    pub data: Seq<u8>,
}

impl BlockView {
    /// The serialized block: successor digest, then data.
    pub open spec fn wire(self) -> Seq<u8> {
        self.next_hash + self.data
    }

    /// The digest under which the block is known.
    pub open spec fn hash(self) -> Seq<u8> {
        sha256_digest(self.wire())
    }
}

impl View for Block {
    type V = BlockView;

    open spec fn view(&self) -> BlockView {
        BlockView { next_hash: self.next_hash@, data: self.data@ }
    }
}

/// Thirty-two zero bytes: the successor digest of a chain's last block.
pub open spec fn zero_digest() -> Seq<u8> {
    Seq::new(32, |i: int| 0u8)
}

/// The chain of blocks for a payload. A payload of at most 180 bytes is one
/// block with a zero successor; a longer one is a block with its first 180
/// bytes, linked to the chain of the rest.
pub open spec fn chain_of(p: Seq<u8>) -> Seq<BlockView>
    decreases p.len(),
{
    if p.len() <= 180 {
        seq![BlockView { next_hash: zero_digest(), data: p }]
    } else {
        let rest = chain_of(p.skip(180));
        seq![BlockView { next_hash: rest[0].hash(), data: p.take(180) }] + rest
    }
}

/// The data of all blocks of a chain, in order.
pub open spec fn chain_data(chain: Seq<BlockView>) -> Seq<u8>
    decreases chain.len(),
{
    if chain.len() == 0 {
        Seq::empty()
    } else {
        chain[0].data + chain_data(chain.skip(1))
    }
}

/// The blocks of a vector as mathematical values.
pub open spec fn blocks_view(blocks: Seq<Block>) -> Seq<BlockView> {
    Seq::new(blocks.len(), |i: int| blocks[i]@)
}

/// The chain of a payload `p` carries `p`: its data portions, put together
/// again, are `p`. It has `ceil(|p| / 180)` blocks, and one block for the
/// empty payload. Each block but the last holds the digest of the serialized
/// block after it and 180 data bytes, and the last block's successor digest
/// is all zero.
pub proof fn lemma_chain_of(p: Seq<u8>)
    ensures
        chain_data(chain_of(p)) == p,
        chain_of(p).len() == if p.len() == 0 { 1 } else { (p.len() + 179) / 180 },
        forall|i: int|
            0 <= i < chain_of(p).len() - 1 ==> #[trigger] chain_of(p)[i].next_hash
                == chain_of(p)[i + 1].hash(),
        forall|i: int|
            0 <= i < chain_of(p).len() - 1 ==> (#[trigger] chain_of(p)[i]).data.len() == 180,
        chain_of(p).last().next_hash == zero_digest(),
        chain_of(p).last().data.len() <= 180,
    decreases p.len(),
{
    let c = chain_of(p);
    if p.len() <= 180 {
        assert(c.skip(1) =~= Seq::<BlockView>::empty());
        assert(chain_data(c.skip(1)) =~= Seq::<u8>::empty());
        assert(chain_data(c) =~= p);
    } else {
        let rest = chain_of(p.skip(180));
        lemma_chain_of(p.skip(180));
        assert(c.skip(1) =~= rest);
        assert(chain_data(c) =~= p.take(180) + p.skip(180));
        assert(p.take(180) + p.skip(180) =~= p);
        assert(c.len() == rest.len() + 1);
        assert forall|i: int| 0 <= i < c.len() - 1 implies #[trigger] c[i].next_hash == c[i
            + 1].hash() && c[i].data.len() == 180 by {
            if i > 0 {
                assert(c[i] == rest[i - 1]);
                assert(c[i + 1] == rest[i]);
            } else {
                assert(c[1] == rest[0]);
            }
        }
        assert(c.last() == rest.last());
    }
}

impl Block {
    /// Length of the serialized block.
    pub fn serialized_len(&self) -> (n: usize)
        requires
            self.data@.len() + 32 <= usize::MAX,
        ensures
            n == self@.wire().len(),
    {
        32 + self.data.len()
    }

    /// Appends the serialized block to `buf`.
    pub fn serialize_into(&self, buf: &mut Vec<u8>)
        ensures
            final(buf)@ == old(buf)@ + self@.wire(),
    {
        buf.extend_from_slice(self.next_hash.as_slice());
        buf.extend_from_slice(self.data.as_slice());
        assert(buf@ =~= old(buf)@ + self@.wire());
    }

    /// The serialized block: successor digest, then data.
    pub fn serialize(&self) -> (buf: Vec<u8>)
        ensures
            buf@ == self@.wire(),
    {
        let mut buf: Vec<u8> = Vec::new();
        self.serialize_into(&mut buf);
        assert(buf@ =~= self@.wire());
        buf
    }
}

/// SHA-256 of the serialized block.
pub fn hash_block(block: &Block) -> (digest: [u8; 32])
    ensures
        digest@ == block@.hash(),
{
    let wire = block.serialize();
    sha256(wire.as_slice())
}

/// Splits `data` into digest-linked blocks. The chain is built from its last
/// block backwards, so that each block can hold the digest of its successor.
pub fn build_block_chain(data: &[u8]) -> (blocks: Vec<Block>)
    ensures
        blocks_view(blocks@) == chain_of(data@),
        chain_data(blocks_view(blocks@)) == data@,
        blocks@.len() == if data@.len() == 0 {
            1
        } else {
            (data@.len() + 179) / 180
        },
        forall|i: int|
            0 <= i < blocks@.len() - 1 ==> (#[trigger] blocks@[i]).next_hash@ == blocks@[i + 1]@.hash(),
        blocks@[blocks@.len() - 1].next_hash@ == zero_digest(),
{
    let len = data.len();
    let mut start: usize = if len == 0 { 0 } else { (len - 1) / BLOCK_DATA_SIZE * BLOCK_DATA_SIZE };
    let zero: [u8; 32] = [0u8; 32];
    assert(zero@ =~= zero_digest());
    let tail = Block {
        next_hash: zero,
        data: vstd::slice::slice_to_vec(vstd::slice::slice_subrange(data, start, len)),
    };
    assert(tail.data@ =~= data@.skip(start as int));
    let mut next_hash = hash_block(&tail);
    let mut blocks: Vec<Block> = Vec::new();
    blocks.push(tail);
    assert(blocks_view(blocks@) =~= chain_of(data@.skip(start as int)));
    while start > 0
        invariant
            len == data@.len(),
            start <= len,
            start == 0 || start < len,
            start % 180 == 0,
            blocks@.len() >= 1,
            blocks_view(blocks@) == chain_of(data@.skip(start as int)),
            next_hash@ == blocks@[0]@.hash(),
        decreases start,
    {
        let end = start;
        start = start - BLOCK_DATA_SIZE;
        let block = Block {
            next_hash,
            data: vstd::slice::slice_to_vec(vstd::slice::slice_subrange(data, start, end)),
        };
        let ghost rest = blocks_view(blocks@);
        let ghost p = data@.skip(start as int);
        proof {
            assert(p.skip(180) =~= data@.skip(end as int));
            assert(p.take(180) =~= block.data@);
            assert(p.len() > 180);
            assert(rest[0] == blocks@[0]@);
        }
        next_hash = hash_block(&block);
        blocks.insert(0, block);
        assert(blocks_view(blocks@) =~= seq![block@] + rest);
    }
    proof {
        assert(data@.skip(0) =~= data@);
        lemma_chain_of(data@);
        let chain = chain_of(data@);
        assert(blocks_view(blocks@).len() == blocks@.len());
        assert forall|i: int| 0 <= i < blocks@.len() - 1 implies (#[trigger] blocks@[i]).next_hash@
            == blocks@[i + 1]@.hash() by {
            assert(blocks_view(blocks@)[i] == blocks@[i]@);
            assert(blocks_view(blocks@)[i + 1] == blocks@[i + 1]@);
            assert(chain[i].next_hash == chain[i + 1].hash());
        }
        assert(blocks_view(blocks@)[blocks@.len() - 1] == blocks@[blocks@.len() - 1]@);
        assert(chain.last() == chain[chain.len() - 1]);
    }
    blocks
}

} // verus!
