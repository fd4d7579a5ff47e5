//! Reader for the FST (Fast Signal Trace) waveform container.
//!
//! A buffer is first framed into blocks; each block kind then has a decoder
//! of its own.  Every decoder is a total function of the bytes it is given,
//! and its contract is stated over `Seq<u8>`.

use vstd::prelude::*;
use block_parsers::blackout::BlackoutBlock;
use block_parsers::geometry::GeometryBlock;
use block_parsers::header::HeaderBlock;
use block_parsers::hierarchy::HierarchyBlock;
use block_parsers::value_change_data::ValueChangeDataBlock;
use block_parsers::{Block, BlockView, DEFAULT_MAX_SIZE, spec_block, spec_extract_data};
use data_types::blockinfo::{BLOCK_HEADER_LEN, BlockInfo, FramedBlock};
use data_types::blocktype::BlockType;
use error::{Frames, FstFileParseErrorKind, PositionError, fail, in_context, in_expanded};

pub mod block_parsers;
pub mod data_types;
pub mod error;
pub mod primitives;

verus! {

/// The blocks that stand one after another from `pos` to the end of `s`.
pub open spec fn spec_blocks(s: Seq<u8>, pos: int) -> Result<Seq<FramedBlock>, Frames>
    decreases s.len() - pos,
{
    if pos < 0 || pos >= s.len() {
        Ok(Seq::empty())
    } else {
        match in_context(spec_block(s, pos), pos, "parse block") {
            Err(f) => Err(f),
            Ok((next, (kind, payload))) => match spec_blocks(s, next) {
                Err(f) => Err(f),
                Ok(rest) => Ok(
                    seq![
                        FramedBlock { kind, start_offset: pos, total_length: next - pos, payload },
                    ] + rest,
                ),
            },
        }
    }
}

/// The views of a list of framed blocks.
pub open spec fn blocks_view(blocks: Seq<BlockInfo>) -> Seq<FramedBlock> {
    blocks.map_values(|b: BlockInfo| b@)
}

/// The blocks lie one behind the other from `pos` to `end`, each with nine
/// bytes before its payload, and each payload is the bytes of `s` at its
/// place.
pub open spec fn tiles(blocks: Seq<FramedBlock>, s: Seq<u8>, pos: int, end: int) -> bool
    decreases blocks.len(),
{
    if blocks.len() == 0 {
        pos == end
    } else {
        let b = blocks[0];
        &&& b.start_offset == pos
        &&& b.total_length == b.payload.len() + BLOCK_HEADER_LEN
        &&& pos + b.total_length <= end
        &&& b.payload == s.subrange(pos + BLOCK_HEADER_LEN, pos + b.total_length)
        &&& tiles(blocks.skip(1), s, pos + b.total_length, end)
    }
}

/// The sum of the lengths of the blocks.
pub open spec fn total_length(blocks: Seq<FramedBlock>) -> int
    decreases blocks.len(),
{
    if blocks.len() == 0 {
        0
    } else {
        blocks[0].total_length + total_length(blocks.skip(1))
    }
}

/// A block is at least nine bytes long, ends within the buffer, and its
/// payload is the bytes behind its first nine.
pub proof fn lemma_block_extent(s: Seq<u8>, pos: int)
    requires
        0 <= pos,
        s.len() <= usize::MAX,
        spec_block(s, pos) is Ok,
    ensures
        ({
            let (next, (kind, payload)) = spec_block(s, pos)->Ok_0;
            &&& next == pos + BLOCK_HEADER_LEN + payload.len()
            &&& next <= s.len()
            &&& payload == s.subrange(pos + BLOCK_HEADER_LEN, next)
        }),
{
}

/// The blocks of a buffer that frames tile it: the first starts at `pos`,
/// each starts where the one before it ends, the last ends with the buffer,
/// and the lengths add up to the bytes from `pos` on.
pub proof fn lemma_blocks_tile(s: Seq<u8>, pos: int)
    requires
        0 <= pos <= s.len() <= usize::MAX,
        spec_blocks(s, pos) is Ok,
    ensures
        tiles(spec_blocks(s, pos)->Ok_0, s, pos, s.len() as int),
        total_length(spec_blocks(s, pos)->Ok_0) == s.len() - pos,
    decreases s.len() - pos,
{
    if pos < s.len() {
        lemma_block_extent(s, pos);
        let (next, (kind, payload)) = spec_block(s, pos)->Ok_0;
        lemma_blocks_tile(s, next);
        let rest = spec_blocks(s, next)->Ok_0;
        let all = spec_blocks(s, pos)->Ok_0;
        assert(all.skip(1) =~= rest);
    }
}

/// Frames the whole buffer: every block with its place, in file order.
/// Nothing is expanded or decoded.
///
/// On success the blocks tile the buffer (see [`lemma_blocks_tile`]).
pub fn parse_raw_block_information(input: &[u8]) -> (r: Result<Vec<BlockInfo>, PositionError>)
    ensures
        match (r, spec_blocks(input@, 0)) {
            (Ok(blocks), Ok(b)) => blocks_view(blocks@) == b && tiles(
                b,
                input@,
                0,
                input@.len() as int,
            ) && total_length(b) == input@.len(),
            (Err(e), Err(f)) => e@ == f,
            _ => false,
        },
{
    let mut blocks: Vec<BlockInfo> = Vec::new();
    let mut at: usize = 0;
    while at < input.len()
        invariant
            at <= input.len(),
            match spec_blocks(input@, at as int) {
                Ok(rest) => spec_blocks(input@, 0) == Ok::<Seq<FramedBlock>, Frames>(
                    blocks_view(blocks@) + rest,
                ),
                Err(f) => spec_blocks(input@, 0) == Err::<Seq<FramedBlock>, Frames>(f),
            },
        decreases input.len() - at,
    {
        match Block::parse_block_with_position(input, at) {
            Err(e) => {
                return Err(e.context(at, "parse block"));
            },
            Ok((next, block)) => {
                proof {
                    lemma_block_extent(input@, at as int);
                }
                let info = BlockInfo::from_offset_and_block(at, next - at, block);
                proof {
                    let before = blocks_view(blocks@);
                    let after = blocks_view(blocks@.push(info));
                    assert(after =~= before.push(info@));
                    if let Ok(rest) = spec_blocks(input@, next as int) {
                        assert(before + (seq![info@] + rest) =~= after + rest);
                    }
                }
                blocks.push(info);
                at = next;
            },
        }
    }
    proof {
        assert(blocks_view(blocks@) + Seq::<FramedBlock>::empty() =~= blocks_view(blocks@));
        lemma_blocks_tile(input@, 0);
    }
    Ok(blocks)
}

/// The blocks of a file, grouped by what they hold.  Of the four kinds that
/// a file holds once, the last block that was seen is kept.
#[derive(Debug)]
pub struct FstFileContent {
    pub header: Option<HeaderBlock>,
    pub hierarchy: Option<HierarchyBlock>,
    pub blackout: Option<BlackoutBlock>,
    pub geometry: Option<GeometryBlock>,
    /// The value-change blocks, in file order.
    pub value_change_data: Vec<ValueChangeDataBlock>,
}

/// The grouped blocks, in contracts.
pub struct ContentView {
    pub header: Option<BlockView>,
    pub hierarchy: Option<BlockView>,
    pub blackout: Option<BlockView>,
    pub geometry: Option<BlockView>,
    pub value_change_data: Seq<BlockView>,
}

impl View for FstFileContent {
    type V = ContentView;

    open spec fn view(&self) -> ContentView {
        ContentView {
            header: match self.header {
                Some(b) => Some(b@),
                None => None,
            },
            hierarchy: match self.hierarchy {
                Some(b) => Some(b@),
                None => None,
            },
            blackout: match self.blackout {
                Some(b) => Some(b@),
                None => None,
            },
            geometry: match self.geometry {
                Some(b) => Some(b@),
                None => None,
            },
            value_change_data: self.value_change_data@.map_values(|b: ValueChangeDataBlock| b@),
        }
    }
}

/// The content of a file without blocks.
pub open spec fn empty_content() -> ContentView {
    ContentView {
        header: None,
        hierarchy: None,
        blackout: None,
        geometry: None,
        value_change_data: Seq::empty(),
    }
}

/// The content `c` after the block `b` was seen.
pub open spec fn placed(c: ContentView, b: FramedBlock) -> ContentView {
    let block = BlockView { kind: b.kind, payload: b.payload };
    match b.kind {
        BlockType::Header => ContentView { header: Some(block), ..c },
        BlockType::HierarchyGz | BlockType::HierarchyLz4 | BlockType::HierarchyLz4Duo => ContentView {
            hierarchy: Some(block),
            ..c
        },
        BlockType::Blackout => ContentView { blackout: Some(block), ..c },
        BlockType::Geometry => ContentView { geometry: Some(block), ..c },
        BlockType::ValueChangeData
        | BlockType::ValueChangeDataAlias
        | BlockType::ValueChangeDataAlias2 => ContentView {
            value_change_data: c.value_change_data.push(block),
            ..c
        },
        BlockType::GZippedWrapper | BlockType::Skip => c,
    }
}

/// The content after the first `n` blocks were seen.
pub open spec fn spec_classify(blocks: Seq<FramedBlock>, n: int) -> ContentView
    decreases n,
{
    if n <= 0 {
        empty_content()
    } else {
        placed(spec_classify(blocks, n - 1), blocks[n - 1])
    }
}

/// The index of the first block from `i` on that wraps a whole file.
pub open spec fn first_wrapper(blocks: Seq<FramedBlock>, i: int) -> Option<int>
    decreases blocks.len() - i,
{
    if i < 0 || i >= blocks.len() {
        None
    } else if blocks[i].kind == BlockType::GZippedWrapper {
        Some(i)
    } else {
        first_wrapper(blocks, i + 1)
    }
}

/// The content of the file that a wrapper block holds: its payload is
/// expanded and framed, and the blocks are grouped.  A wrapper inside is
/// passed over.  An error of the framing counts its offsets from the start of
/// the expanded file, and is marked as one of expanded data.
pub open spec fn spec_unwrap(wrapper: FramedBlock, max_size: usize) -> Result<ContentView, Frames> {
    match spec_extract_data(BlockType::GZippedWrapper, wrapper.payload, max_size) {
        Err(reason) => Err(
            fail(wrapper.start_offset, FstFileParseErrorKind::DecompressError(reason)),
        ),
        Ok(inner) => match spec_blocks(inner, 0) {
            Err(f) => Err(in_expanded(f, wrapper.start_offset)),
            Ok(blocks) => Ok(spec_classify(blocks, blocks.len() as int)),
        },
    }
}

/// The content of the file `s`: its blocks, grouped; or, where one of them
/// wraps a whole file, the content of the file that the first such block
/// holds.
pub open spec fn spec_parse(s: Seq<u8>, max_size: usize) -> Result<ContentView, Frames> {
    match spec_blocks(s, 0) {
        Err(f) => Err(f),
        Ok(blocks) => match first_wrapper(blocks, 0) {
            None => Ok(spec_classify(blocks, blocks.len() as int)),
            Some(k) => spec_unwrap(blocks[k], max_size),
        },
    }
}

/// The same blocks in the opposite order.
fn reversed(blocks: Vec<BlockInfo>) -> (r: Vec<BlockInfo>)
    ensures
        r@ == blocks@.reverse(),
{
    let mut rest = blocks;
    let mut out: Vec<BlockInfo> = Vec::new();
    let ghost n = blocks@.len() as int;
    assert(out@ =~= blocks@.subrange(n, n).reverse());
    assert(rest@ =~= blocks@.take(n));
    while rest.len() > 0
        invariant
            n == blocks@.len(),
            rest@.len() <= n,
            rest@ == blocks@.take(rest@.len() as int),
            out@ == blocks@.subrange(rest@.len() as int, n).reverse(),
        decreases rest.len(),
    {
        let ghost k = rest@.len() as int;
        match rest.pop() {
            None => {},
            Some(b) => {
                out.push(b);
                assert(rest@ =~= blocks@.take(k - 1));
                assert(out@ =~= blocks@.subrange(k - 1, n).reverse());
            },
        }
    }
    assert(blocks@.subrange(0, n) =~= blocks@);
    out
}

/// Groups framed blocks by what they hold.
fn classify(blocks: Vec<BlockInfo>) -> (content: FstFileContent)
    ensures
        content@ == spec_classify(blocks_view(blocks@), blocks@.len() as int),
{
    let ghost all = blocks_view(blocks@);
    let ghost n = blocks@.len() as int;
    let total: usize = blocks.len();
    let mut rest: Vec<BlockInfo> = reversed(blocks);
    let mut content = FstFileContent {
        header: None,
        hierarchy: None,
        blackout: None,
        geometry: None,
        value_change_data: Vec::new(),
    };
    let mut i: usize = 0;
    assert(content@.value_change_data =~= Seq::empty());
    assert(blocks@.subrange(0, n) =~= blocks@);
    while rest.len() > 0
        invariant
            n == blocks@.len(),
            n == total,
            all == blocks_view(blocks@),
            i + rest@.len() == n,
            rest@ == blocks@.subrange(i as int, n).reverse(),
            content@ == spec_classify(all, i as int),
        decreases rest.len(),
    {
        match rest.pop() {
            None => {},
            Some(info) => {
                assert(info == blocks@[i as int]);
                assert(rest@ =~= blocks@.subrange(i + 1, n).reverse());
                assert(all[i as int] == info@);
                let ghost before = content@;
                let block: Block = info.take_block();
                match block.block_type {
                    BlockType::Header => {
                        content.header = Some(HeaderBlock::from_block(block));
                    },
                    BlockType::HierarchyGz | BlockType::HierarchyLz4 | BlockType::HierarchyLz4Duo => {
                        content.hierarchy = Some(HierarchyBlock::from_block(block));
                    },
                    BlockType::Blackout => {
                        content.blackout = Some(BlackoutBlock::from_block(block));
                    },
                    BlockType::Geometry => {
                        content.geometry = Some(GeometryBlock::from_block(block));
                    },
                    BlockType::ValueChangeData
                    | BlockType::ValueChangeDataAlias
                    | BlockType::ValueChangeDataAlias2 => {
                        content.value_change_data.push(ValueChangeDataBlock::from_block(block));
                        assert(content@.value_change_data =~= before.value_change_data.push(
                            block@,
                        ));
                    },
                    BlockType::GZippedWrapper | BlockType::Skip => {},
                }
                i = i + 1;
            },
        }
    }
    content
}

/// Looks for the first block that wraps a whole file.
fn find_wrapper(blocks: &Vec<BlockInfo>) -> (r: Option<usize>)
    ensures
        match (r, first_wrapper(blocks_view(blocks@), 0)) {
            (Some(k), Some(j)) => k == j && k < blocks@.len() && blocks@[k as int]@.kind
                == BlockType::GZippedWrapper,
            (None, None) => true,
            _ => false,
        },
{
    let mut i: usize = 0;
    while i < blocks.len()
        invariant
            i <= blocks.len(),
            first_wrapper(blocks_view(blocks@), 0) == first_wrapper(blocks_view(blocks@), i as int),
        decreases blocks.len() - i,
    {
        assert(blocks_view(blocks@)[i as int] == blocks@[i as int]@);
        match blocks[i].get_block().block_type {
            BlockType::GZippedWrapper => {
                return Some(i);
            },
            _ => {},
        }
        i = i + 1;
    }
    None
}

/// Parses the whole content of a file, letting compressed data expand to at
/// most `max_size` bytes.
pub fn parse_with_limit(input: &[u8], max_size: usize) -> (r: Result<FstFileContent, PositionError>)
    ensures
        match (r, spec_parse(input@, max_size)) {
            (Ok(content), Ok(c)) => content@ == c,
            (Err(e), Err(f)) => e@ == f,
            _ => false,
        },
{
    let blocks: Vec<BlockInfo> = match parse_raw_block_information(input) {
        Ok(blocks) => blocks,
        Err(e) => {
            return Err(e);
        },
    };
    match find_wrapper(&blocks) {
        None => Ok(classify(blocks)),
        Some(k) => {
            assert(blocks_view(blocks@)[k as int] == blocks@[k as int]@);
            let wrapper: &BlockInfo = &blocks[k];
            match wrapper.get_block().extract_data_with_limit(max_size) {
                Err(reason) => Err(
                    PositionError::new(
                        wrapper.get_block_start_offset(),
                        FstFileParseErrorKind::DecompressError(reason),
                    ),
                ),
                Ok(inner) => match parse_raw_block_information(inner.as_slice()) {
                    Err(e) => Err(e.expanded(wrapper.get_block_start_offset())),
                    Ok(inner_blocks) => Ok(classify(inner_blocks)),
                },
            }
        },
    }
}

/// Parses the whole content of a file.  Compressed data may expand to
/// `DEFAULT_MAX_SIZE` bytes.
pub fn parse(input: &[u8]) -> (r: Result<FstFileContent, PositionError>)
    ensures
        match (r, spec_parse(input@, DEFAULT_MAX_SIZE)) {
            (Ok(content), Ok(c)) => content@ == c,
            (Err(e), Err(f)) => e@ == f,
            _ => false,
        },
{
    parse_with_limit(input, DEFAULT_MAX_SIZE)
}

} // verus!
