use fst_file::block_parsers::decompress::{
    checked_block, checked_read, gzip_decompress, longest_ff_run, lz4_decompress,
    lz4_double_decompress, region_bytes, zlib_decompress,
};
use fst_file::block_parsers::{Block, DEFAULT_MAX_SIZE};
use fst_file::data_types::BlockType;
use fst_file::error::DecompressReason;
use std::io::Write;

fn gzip(data: &[u8]) -> Vec<u8> {
    let mut e = flate2::write::GzEncoder::new(Vec::new(), flate2::Compression::default());
    e.write_all(data).unwrap();
    e.finish().unwrap()
}

fn zlib(data: &[u8]) -> Vec<u8> {
    let mut e = flate2::write::ZlibEncoder::new(Vec::new(), flate2::Compression::default());
    e.write_all(data).unwrap();
    e.finish().unwrap()
}

fn text() -> Vec<u8> {
    b"the quick brown fox jumps over the lazy dog, the quick brown fox".to_vec()
}

#[test]
fn gzip_gives_the_bytes_back() {
    let packed = gzip(&text());
    assert_ne!(packed, text());
    assert_eq!(gzip_decompress(&packed, DEFAULT_MAX_SIZE).unwrap(), text());
    assert_eq!(gzip_decompress(&gzip(&[]), 0).unwrap(), Vec::<u8>::new());
}

#[test]
fn zlib_gives_the_bytes_back() {
    let packed = zlib(&text());
    assert_ne!(packed, text());
    assert_eq!(zlib_decompress(&packed, DEFAULT_MAX_SIZE).unwrap(), text());
}

#[test]
fn lz4_gives_the_bytes_back() {
    let packed = lz4_flex::block::compress(&text());
    assert_ne!(packed, text());
    let n = text().len();
    assert_eq!(lz4_decompress(&packed, n as u64, DEFAULT_MAX_SIZE).unwrap(), text());
    assert_eq!(lz4_decompress(&packed, n as u64 + 40, DEFAULT_MAX_SIZE).unwrap(), text());
}

#[test]
fn a_broken_stream_is_an_error() {
    assert_eq!(
        gzip_decompress(&text(), DEFAULT_MAX_SIZE).unwrap_err(),
        DecompressReason::IoError
    );
    assert_eq!(
        zlib_decompress(&text(), DEFAULT_MAX_SIZE).unwrap_err(),
        DecompressReason::IoError
    );
    let mut cut = gzip(&text());
    cut.truncate(cut.len() / 2);
    assert_eq!(
        gzip_decompress(&cut, DEFAULT_MAX_SIZE).unwrap_err(),
        DecompressReason::IoError
    );
    assert_eq!(
        gzip_decompress(&zlib(&text()), DEFAULT_MAX_SIZE).unwrap_err(),
        DecompressReason::IoError
    );
    let packed = lz4_flex::block::compress(&text());
    let n = text().len() as u64;
    assert_eq!(
        lz4_decompress(&packed, n - 1, DEFAULT_MAX_SIZE).unwrap_err(),
        DecompressReason::Lz4
    );
    assert_eq!(
        lz4_decompress(&[0x10], 10, DEFAULT_MAX_SIZE).unwrap_err(),
        DecompressReason::Lz4
    );
}

#[test]
fn the_size_cap_holds() {
    let n = text().len();
    assert_eq!(gzip_decompress(&gzip(&text()), n).unwrap(), text());
    assert_eq!(
        gzip_decompress(&gzip(&text()), n - 1).unwrap_err(),
        DecompressReason::SizeCapExceeded
    );
    assert_eq!(
        zlib_decompress(&zlib(&text()), 0).unwrap_err(),
        DecompressReason::SizeCapExceeded
    );
    assert_eq!(zlib_decompress(&zlib(&text()), usize::MAX).unwrap(), text());
    let packed = lz4_flex::block::compress(&text());
    assert_eq!(lz4_decompress(&packed, n as u64, n).unwrap(), text());
    assert_eq!(
        lz4_decompress(&packed, n as u64, n - 1).unwrap_err(),
        DecompressReason::SizeCapExceeded
    );
    assert_eq!(
        lz4_decompress(&packed, u64::MAX, usize::MAX).unwrap_err(),
        DecompressReason::SizeCapExceeded
    );
    let bomb = gzip(&vec![0u8; 1 << 20]);
    assert_eq!(
        gzip_decompress(&bomb, 1000).unwrap_err(),
        DecompressReason::SizeCapExceeded
    );
}

#[test]
fn runs_of_ff() {
    assert_eq!(longest_ff_run(&[]), 0);
    assert_eq!(longest_ff_run(&[1, 2, 3]), 0);
    assert_eq!(longest_ff_run(&[0xFF]), 1);
    assert_eq!(longest_ff_run(&[0xFF, 0xFF, 0, 0xFF, 0xFF, 0xFF, 1, 0xFF]), 3);
    assert_eq!(longest_ff_run(&[0, 0xFF, 0xFF]), 2);
}

#[test]
fn a_length_that_cannot_be_added_up_is_refused() {
    let mut input = vec![0xF0u8];
    input.resize(16_843_011, 0xFF);
    assert_eq!(longest_ff_run(&input), 16_843_010);
    assert_eq!(
        lz4_decompress(&input, 10, DEFAULT_MAX_SIZE).unwrap_err(),
        DecompressReason::Lz4LengthOverflow
    );
    input.truncate(16_843_009);
    assert_eq!(
        lz4_decompress(&input, 10, DEFAULT_MAX_SIZE).unwrap_err(),
        DecompressReason::Lz4
    );
}

#[test]
fn outcomes_of_the_readers_are_mapped() {
    assert_eq!(checked_read(Ok(vec![1, 2, 3]), 3).unwrap(), vec![1, 2, 3]);
    assert_eq!(
        checked_read(Ok(vec![1, 2, 3]), 2).unwrap_err(),
        DecompressReason::SizeCapExceeded
    );
    let broken = std::io::Error::new(std::io::ErrorKind::InvalidData, "broken");
    assert_eq!(checked_read(Err(broken), 2).unwrap_err(), DecompressReason::IoError);
    assert_eq!(checked_block(Ok(vec![4])).unwrap(), vec![4]);
    assert_eq!(
        checked_block(Err(lz4_flex::block::DecompressError::OffsetZero)).unwrap_err(),
        DecompressReason::Lz4
    );
}

#[test]
fn a_region_of_the_declared_length_is_not_expanded() {
    let packed = zlib(&text());
    assert_eq!(region_bytes(&packed, packed.len(), 10).unwrap(), packed);
    assert_eq!(region_bytes(&packed, text().len(), 100).unwrap(), text());
    assert_eq!(
        region_bytes(&text(), 3, 100).unwrap_err(),
        DecompressReason::IoError
    );
}

#[test]
fn blocks_that_are_not_compressed_give_their_payload() {
    for kind in [
        BlockType::Header,
        BlockType::ValueChangeData,
        BlockType::Blackout,
        BlockType::Geometry,
        BlockType::ValueChangeDataAlias,
        BlockType::ValueChangeDataAlias2,
        BlockType::Skip,
    ] {
        let block = Block::new(kind, vec![9, 8, 7]);
        assert_eq!(block.extract_data().unwrap(), vec![9, 8, 7]);
        assert_eq!(block.extract_data_with_limit(0).unwrap(), vec![9, 8, 7]);
    }
}

#[test]
fn compressed_blocks_need_their_length_fields() {
    for kind in [
        BlockType::HierarchyGz,
        BlockType::HierarchyLz4,
        BlockType::HierarchyLz4Duo,
        BlockType::GZippedWrapper,
    ] {
        let block = Block::new(kind, vec![0; 7]);
        assert_eq!(block.extract_data().unwrap_err(), DecompressReason::MissingLength);
    }
    let block = Block::new(BlockType::HierarchyLz4Duo, vec![0; 15]);
    assert_eq!(block.extract_data().unwrap_err(), DecompressReason::MissingLength);
    let mut payload = 64u64.to_be_bytes().to_vec();
    payload.extend_from_slice(&gzip(&text()));
    let block = Block::new(BlockType::GZippedWrapper, payload);
    assert_eq!(block.extract_data().unwrap(), text());
    assert_eq!(
        block.extract_data_with_limit(10).unwrap_err(),
        DecompressReason::SizeCapExceeded
    );
}

#[test]
fn two_lz4_blocks_one_in_the_other() {
    let once = lz4_flex::block::compress(&text());
    let twice = lz4_flex::block::compress(&once);
    let mut input = (once.len() as u64).to_be_bytes().to_vec();
    input.extend_from_slice(&twice);
    let n = text().len() as u64;
    assert_eq!(lz4_double_decompress(&input, n, DEFAULT_MAX_SIZE).unwrap(), text());
    assert_eq!(
        lz4_double_decompress(&input[..7], n, DEFAULT_MAX_SIZE).unwrap_err(),
        DecompressReason::MissingLength
    );
    assert_eq!(
        lz4_double_decompress(&input, n - 1, DEFAULT_MAX_SIZE).unwrap_err(),
        DecompressReason::Lz4
    );
    assert_eq!(
        lz4_double_decompress(&input, n, once.len() - 1).unwrap_err(),
        DecompressReason::SizeCapExceeded
    );
    let mut wrong = ((once.len() - 1) as u64).to_be_bytes().to_vec();
    wrong.extend_from_slice(&twice);
    assert_eq!(
        lz4_double_decompress(&wrong, n, DEFAULT_MAX_SIZE).unwrap_err(),
        DecompressReason::Lz4
    );
}
