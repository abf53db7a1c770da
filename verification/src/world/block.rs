use vstd::prelude::*;

verus! {

/// Number of low bits of a [`Block`] that hold its [`BlockId`].
pub const BLOCK_ID_BITS: u16 = 10;

/// Mask selecting the [`BlockId`] bits of a raw block value.
pub const BLOCK_ID_MASK: u16 = 0x3ff;

/// Extra per-block data stored in the upper bits of a [`Block`].
pub struct BlockData(u16);

impl View for BlockData {
    type V = u16;

    closed spec fn view(&self) -> u16 {
        self.0
    }
}

impl BlockData {
    /// The most significant bit marks a complex block.
    pub const COMPLEX_MASK: u16 = 0x8000;

    /// Complex blocks use their lower 15 bits as an index into a separate table
    /// of blocks, because one complex block consists of 8 blocks.
    pub fn is_complex(self) -> (r: bool)
        ensures
            r == (self@ >= 0x8000),
    {
        let v = self.0;
        let r = (v & Self::COMPLEX_MASK) != 0;
        assert((v & 0x8000u16) != 0 <==> v >= 0x8000) by (bit_vector);
        r
    }
}

/// The type of a block, as stored in the low bits of a [`Block`].
#[derive(Clone, Copy, PartialEq, Eq, Structural)]
pub struct BlockId(u16);

impl View for BlockId {
    type V = u16;

    closed spec fn view(&self) -> u16 {
        self.0
    }
}

impl BlockId {
    /// The empty block type.
    pub fn air() -> (r: BlockId)
        ensures
            r@ == 0,
    {
        BlockId(0)
    }

    /// Stone.
    pub fn stone() -> (r: BlockId)
        ensures
            r@ == 1,
    {
        BlockId(1)
    }

    /// Builds an id from its raw value.
    pub fn from_raw(raw: u16) -> (r: BlockId)
        ensures
            r@ == raw,
    {
        BlockId(raw)
    }

    /// The raw value of this id.
    pub fn raw(self) -> (r: u16)
        ensures
            r == self@,
    {
        self.0
    }

    /// Either full or partial transparency.
    pub fn is_transparent(self) -> (r: bool)
        ensures
            r == (self@ == 0),
    {
        self.0 == 0
    }
}

/// A block of the world: a [`BlockId`] in the low 10 bits and [`BlockData`] above them.
#[derive(Clone, Copy, PartialEq, Eq, Structural)]
pub struct Block(u16);

impl View for Block {
    type V = u16;

    closed spec fn view(&self) -> u16 {
        self.0
    }
}

impl Block {
    /// An air block.
    pub fn air() -> (r: Block)
        ensures
            r@ == 0,
    {
        Block(0)
    }

    /// A stone block.
    pub fn stone() -> (r: Block)
        ensures
            r@ == 1,
    {
        Block(1)
    }

    /// A block of the given type with no extra data.
    pub fn new(id: BlockId) -> (r: Self)
        ensures
            r@ == id@,
    {
        Self(id.0)
    }

    /// The raw 16-bit representation.
    pub fn raw(self) -> (r: u16)
        ensures
            r == self@,
    {
        self.0
    }

    /// The bits above the block id.
    pub fn data(self) -> (r: BlockData)
        ensures
            r@ == self@ >> 10u16,
            r@ < 64,
    {
        let v = self.0;
        assert(v >> 10u16 < 64) by (bit_vector);
        BlockData(v >> 10)
    }

    /// The block id held in the low 10 bits.
    pub fn id(self) -> (r: BlockId)
        ensures
            r@ == self@ & 0x3ffu16,
            r@ == self@ % 1024,
            r == block_id_of(self),
    {
        let v = self.0;
        assert(v & 0x3ffu16 == v % 1024) by (bit_vector);
        BlockId(v & BLOCK_ID_MASK)
    }

}

impl From<Block> for BlockId {
    fn from(block: Block) -> (r: Self) {
        block.id()
    }
}

impl vstd::std_specs::convert::FromSpecImpl<Block> for BlockId {
    open spec fn obeys_from_spec() -> bool {
        true
    }

    open spec fn from_spec(v: Block) -> BlockId {
        block_id_of(v)
    }
}

/// The id held by a block: its raw value modulo 1024.
pub closed spec fn block_id_of(b: Block) -> BlockId {
    BlockId(b.0 & 0x3ffu16)
}

/// The id that `From` gives is the low 10 bits of the block.
pub proof fn lemma_block_id_of(b: Block)
    ensures
        block_id_of(b)@ == b@ % 1024,
{
    let v = b.0;
    assert(v & 0x3ffu16 == v % 1024) by (bit_vector);
}

/// A block built from an id below 1024 gives that id back, with no extra data.
pub proof fn lemma_new_id_roundtrip(id: BlockId)
    requires
        id@ < 1024,
    ensures
        id@ & 0x3ffu16 == id@,
        id@ >> 10u16 == 0,
{
    let v = id@;
    assert(v < 1024 ==> v & 0x3ffu16 == v && v >> 10u16 == 0) by (bit_vector);
}

/// The raw value of a block is its data above its id.
pub proof fn lemma_raw_splits(b: Block)
    ensures
        b@ == ((b@ >> 10u16) << 10u16) | (b@ & 0x3ffu16),
        b@ == (b@ >> 10u16) * 1024 + b@ % 1024,
{
    let v = b@;
    assert(v == ((v >> 10u16) << 10u16) | (v & 0x3ffu16)) by (bit_vector);
    assert(v == (v >> 10u16) * 1024 + v % 1024) by (bit_vector);
}

} // verus!
