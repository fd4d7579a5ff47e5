use fst_file::block_parsers::chain_table::build_chain_table;
use fst_file::block_parsers::header::HeaderBlockContent;
use fst_file::block_parsers::value_change_data::{
    expand_times, time_table, ValueChangeDataBlock, VcdLayout,
};
use fst_file::block_parsers::Block;
use fst_file::data_types::{BlockType, FileType, SVarInt, TimeScale, VarInt, WriterPackType};
use fst_file::error::{DecompressReason, FstFileParseErrorKind};
use std::io::Write;

fn zlib(data: &[u8]) -> Vec<u8> {
    let mut e = flate2::write::ZlibEncoder::new(Vec::new(), flate2::Compression::default());
    e.write_all(data).unwrap();
    e.finish().unwrap()
}

fn header(num_vars: u64) -> HeaderBlockContent {
    HeaderBlockContent {
        start_time: 0,
        end_time: 30,
        real_endianness: std::f64::consts::E.to_bits(),
        writer_memory_use: 0,
        num_scopes: 1,
        num_hierarchy_vars: num_vars,
        num_vars,
        num_vc_blocks: 1,
        timescale: TimeScale(-9),
        writer: "w".to_string(),
        date: "d".to_string(),
        filetype: FileType::Verilog,
        timezero: 0,
    }
}

struct Parts {
    bits: Vec<u8>,
    bits_declared: u64,
    waves_count: u64,
    pack: u8,
    waves: Vec<u8>,
    position: Vec<u8>,
    position_len: u64,
    time: Vec<u8>,
    time_declared: u64,
    time_len: u64,
    time_count: u64,
}

fn parts() -> Parts {
    Parts {
        bits: b"01x".to_vec(),
        bits_declared: 3,
        waves_count: 2,
        pack: b'4',
        waves: vec![1, 2, 3, 4, 5, 6],
        position: vec![0x03, 0x07],
        position_len: 2,
        time: vec![0x0A, 0x0A, 0x0A],
        time_declared: 3,
        time_len: 3,
        time_count: 3,
    }
}

fn payload(p: &Parts) -> Vec<u8> {
    let mut out = Vec::new();
    out.extend_from_slice(&0u64.to_be_bytes());
    out.extend_from_slice(&30u64.to_be_bytes());
    out.extend_from_slice(&64u64.to_be_bytes());
    out.extend(VarInt(p.bits_declared).encode());
    out.extend(VarInt(p.bits.len() as u64).encode());
    out.extend(VarInt(3).encode());
    out.extend_from_slice(&p.bits);
    out.extend(VarInt(p.waves_count).encode());
    out.push(p.pack);
    out.extend_from_slice(&p.waves);
    out.extend_from_slice(&p.position);
    out.extend_from_slice(&p.position_len.to_be_bytes());
    out.extend_from_slice(&p.time);
    out.extend_from_slice(&p.time_declared.to_be_bytes());
    out.extend_from_slice(&p.time_len.to_be_bytes());
    out.extend_from_slice(&p.time_count.to_be_bytes());
    out
}

fn alias2(payload: Vec<u8>) -> ValueChangeDataBlock {
    ValueChangeDataBlock::from_block(Block::new(BlockType::ValueChangeDataAlias2, payload))
}

#[test]
fn the_regions_of_a_block() {
    let bytes = payload(&parts());
    let layout = VcdLayout::split(&bytes).unwrap();
    assert_eq!(layout.head.start_time, 0);
    assert_eq!(layout.head.end_time, 30);
    assert_eq!(layout.head.memory_required, 64);
    assert_eq!(layout.head.bits_uncompressed_len, 3);
    assert_eq!(layout.head.bits_count, VarInt(3));
    assert_eq!(layout.head.bits_start, 27);
    assert_eq!(layout.head.bits_end, 30);
    assert_eq!(layout.head.waves_count, 2);
    assert_eq!(layout.head.waves_packtype, WriterPackType::Lz4);
    assert_eq!(layout.head.waves_start, 32);
    assert_eq!(layout.tail.position_start, 38);
    assert_eq!(layout.tail.position_end, 40);
    assert_eq!(layout.tail.time_start, 48);
    assert_eq!(layout.tail.time_end, 51);
    assert_eq!(layout.tail.time_uncompressed_len, 3);
    assert_eq!(layout.tail.time_count, 3);
    assert_eq!(bytes.len(), 75);
}

#[test]
fn the_regions_rebuild_the_payload() {
    let bytes = payload(&parts());
    let l = VcdLayout::split(&bytes).unwrap();
    let cuts = [
        0,
        l.head.bits_start,
        l.head.bits_end,
        l.head.waves_start,
        l.tail.position_start,
        l.tail.position_end,
        l.tail.time_start,
        l.tail.time_end,
        bytes.len(),
    ];
    let mut joined = Vec::new();
    for pair in cuts.windows(2) {
        assert!(pair[0] <= pair[1]);
        joined.extend_from_slice(&bytes[pair[0]..pair[1]]);
    }
    assert_eq!(joined, bytes);
    assert_eq!(l.tail.position_end + 8, l.tail.time_start);
    assert_eq!(l.tail.time_end + 24, bytes.len());
}

#[test]
fn the_intermediate_content() {
    let block = alias2(payload(&parts()));
    let c = block.get_intermediate_content(&header(2)).unwrap();
    assert_eq!(c.start_time, 0);
    assert_eq!(c.end_time, 30);
    assert_eq!(c.memory_required, 64);
    assert_eq!(c.bits_data, b"01x".to_vec());
    assert_eq!(c.position_data_raw, vec![0x03, 0x07]);
    assert_eq!(c.time_data, vec![VarInt(10), VarInt(10), VarInt(10)]);
    assert_eq!(c.wave_data_raw, vec![1, 2, 3, 4, 5, 6]);
    assert_eq!(c.waves_packtype, WriterPackType::Lz4);
    assert_eq!(c.waves_count, 2);
    assert_eq!(c.position_offset, 38);
    assert_eq!(c.time_offset, 48);
}

#[test]
fn the_decoded_content_is_kept_for_a_count_of_variables() {
    let mut block = alias2(payload(&parts()));
    assert_eq!(block.decoded(&header(2)).unwrap().time_data, vec![10, 20, 30]);
    assert_eq!(block.decoded(&header(2)).unwrap().chain_table, vec![1, 4, 7]);
    assert_eq!(
        block.decoded(&header(1 << 40)).unwrap_err().errors,
        vec![(0, FstFileParseErrorKind::LengthExceedsMachineWord)]
    );
    assert_eq!(block.decoded(&header(7)).unwrap().time_data, vec![10, 20, 30]);
    assert_eq!(block.block().block_type, BlockType::ValueChangeDataAlias2);
    assert_eq!(
        block
            .get_content_with_limit(&header(2), 0)
            .unwrap()
            .chain_table_lengths,
        vec![3, 3, 0]
    );
}

#[test]
fn the_decoded_content() {
    let block = alias2(payload(&parts()));
    let c = block.get_content(&header(2)).unwrap();
    assert_eq!(c.time_data, vec![10, 20, 30]);
    assert_eq!(c.chain_table, vec![1, 4, 7]);
    assert_eq!(c.chain_table_lengths, vec![3, 3, 0]);
    assert_eq!(*c.time_data.last().unwrap(), header(2).end_time);
}

#[test]
fn compressed_bits_and_times() {
    let mut p = parts();
    let bits: Vec<u8> = vec![b'1'; 300];
    p.bits = zlib(&bits);
    p.bits_declared = 300;
    let times: Vec<u8> = vec![1; 250];
    p.time = zlib(&times);
    p.time_declared = 250;
    p.time_len = p.time.len() as u64;
    p.time_count = 250;
    let block = alias2(payload(&p));
    let c = block.get_intermediate_content(&header(2)).unwrap();
    assert_eq!(c.bits_data, bits);
    assert_eq!(c.time_data.len(), 250);
    let d = block.get_content(&header(2)).unwrap();
    assert_eq!(d.time_data[0], 1);
    assert_eq!(d.time_data[249], 250);
    assert!(d.time_data.windows(2).all(|w| w[0] <= w[1]));
    let small = block.get_intermediate_content_with_limit(299).unwrap_err();
    assert_eq!(
        small.errors,
        vec![(
            28,
            FstFileParseErrorKind::DecompressError(DecompressReason::SizeCapExceeded)
        )]
    );
}

#[test]
fn only_the_kind_with_signed_aliases_is_decoded() {
    for (kind, code) in [
        (BlockType::ValueChangeData, 1),
        (BlockType::ValueChangeDataAlias, 5),
    ] {
        let block = ValueChangeDataBlock::from_block(Block::new(kind, payload(&parts())));
        assert_eq!(
            block.get_content(&header(2)).unwrap_err().errors,
            vec![(0, FstFileParseErrorKind::UnknownBlockKind(code))]
        );
        assert!(block.get_intermediate_content(&header(2)).is_ok());
    }
}

#[test]
fn a_count_of_variables_above_32_bits_is_refused_here() {
    let block = alias2(payload(&parts()));
    assert_eq!(
        block.get_content(&header(1 << 32)).unwrap_err().errors,
        vec![(0, FstFileParseErrorKind::LengthExceedsMachineWord)]
    );
    assert!(block.get_content(&header(u32::MAX as u64)).is_ok());
    let err = build_chain_table(&[], (u32::MAX as usize) + 1, 0, 5).unwrap_err();
    assert_eq!(err.errors, vec![(5, FstFileParseErrorKind::LengthExceedsMachineWord)]);
}

#[test]
fn splits_that_do_not_fit() {
    let bytes = payload(&parts());
    let err = VcdLayout::split(&bytes[..40]).unwrap_err();
    assert_eq!(err.errors, vec![(32, FstFileParseErrorKind::ChainTableMalformed)]);

    let mut p = parts();
    p.time_len = 12;
    let err = VcdLayout::split(&payload(&p)).unwrap_err();
    assert_eq!(err.errors, vec![(59, FstFileParseErrorKind::ChainTableMalformed)]);

    let mut p = parts();
    p.time_len = u64::MAX;
    let err = VcdLayout::split(&payload(&p)).unwrap_err();
    assert_eq!(err.errors[0], (59, FstFileParseErrorKind::ChainTableMalformed));

    let mut p = parts();
    p.position_len = 9;
    let err = VcdLayout::split(&payload(&p)).unwrap_err();
    assert_eq!(err.errors, vec![(40, FstFileParseErrorKind::ChainTableMalformed)]);

    let mut p = parts();
    p.position_len = 8;
    let l = VcdLayout::split(&payload(&p)).unwrap();
    assert_eq!(l.tail.position_start, 32);
    assert_eq!(l.head.waves_start, 32);
}

#[test]
fn errors_of_the_head() {
    let bytes = payload(&parts());
    let err = VcdLayout::split(&bytes[..20]).unwrap_err();
    assert_eq!(err.errors, vec![(16, FstFileParseErrorKind::Truncated)]);
    let err = VcdLayout::split(&bytes[..29]).unwrap_err();
    assert_eq!(err.errors, vec![(27, FstFileParseErrorKind::Truncated)]);
    let mut p = parts();
    p.pack = b'?';
    let err = VcdLayout::split(&payload(&p)).unwrap_err();
    assert_eq!(
        err.errors,
        vec![
            (31, FstFileParseErrorKind::UnknownWriterPack(b'?')),
            (31, FstFileParseErrorKind::Context("writer pack")),
        ]
    );
}

#[test]
fn errors_of_the_time_table() {
    let mut p = parts();
    p.time_count = 2;
    let err = alias2(payload(&p)).get_content(&header(2)).unwrap_err();
    assert_eq!(err.errors, vec![(50, FstFileParseErrorKind::TrailingBytes)]);
    let mut p = parts();
    p.time_count = 4;
    let err = alias2(payload(&p)).get_content(&header(2)).unwrap_err();
    assert_eq!(err.errors[0], (51, FstFileParseErrorKind::Truncated));
    let mut p = parts();
    p.time_declared = 4;
    let err = alias2(payload(&p)).get_content(&header(2)).unwrap_err();
    assert_eq!(
        err.errors,
        vec![(
            48,
            FstFileParseErrorKind::DecompressError(DecompressReason::IoError)
        )]
    );
    let mut p = parts();
    p.time = zlib(&[1, 2, 3, 4]);
    p.time_declared = 4;
    p.time_len = p.time.len() as u64;
    p.time_count = 3;
    let err = alias2(payload(&p)).get_content(&header(2)).unwrap_err();
    assert_eq!(
        err.errors,
        vec![
            (3, FstFileParseErrorKind::TrailingBytes),
            (48, FstFileParseErrorKind::Context("expanded data")),
        ]
    );
    assert_eq!(time_table(&[1, 2], 2, 40).unwrap(), vec![VarInt(1), VarInt(2)]);
    assert_eq!(
        time_table(&[1, 2], 1, 40).unwrap_err().errors,
        vec![(41, FstFileParseErrorKind::TrailingBytes)]
    );
}

#[test]
fn times_add_up() {
    let deltas = vec![VarInt(5), VarInt(0), VarInt(7), VarInt(1)];
    assert_eq!(expand_times(&deltas, 0).unwrap(), vec![5, 5, 12, 13]);
    assert_eq!(expand_times(&vec![], 0).unwrap(), Vec::<u64>::new());
    let edge = vec![VarInt(u64::MAX - 1), VarInt(1)];
    assert_eq!(expand_times(&edge, 0).unwrap(), vec![u64::MAX - 1, u64::MAX]);
    let over = vec![VarInt(u64::MAX), VarInt(0), VarInt(1)];
    assert_eq!(
        expand_times(&over, 9).unwrap_err().errors,
        vec![(9, FstFileParseErrorKind::VarintOverflow)]
    );
}

#[test]
fn chain_table_of_one_entry() {
    let (offsets, lengths) = build_chain_table(&[0x01], 1, 10, 0).unwrap();
    assert_eq!(offsets, vec![0, 11]);
    assert_eq!(lengths, vec![11, 0]);

    let (offsets, lengths) = build_chain_table(&[0x03], 1, 10, 0).unwrap();
    assert_eq!(offsets, vec![1, 11]);
    assert_eq!(lengths, vec![10, 0]);

    let (offsets, lengths) = build_chain_table(&[0x05], 1, 10, 0).unwrap();
    assert_eq!(offsets, vec![2, 11]);
    assert_eq!(lengths, vec![9, 0]);
    assert_eq!(offsets[1], 10 + 1);
}

#[test]
fn chain_table_with_aliases_and_runs() {
    let minus_one = SVarInt(-1).encode();
    let minus_five = SVarInt(-5).encode();
    let mut position = vec![0x03];
    position.extend(&minus_one);
    position.push(0x01);
    position.push(0x04);
    position.push(0x09);
    position.extend(&minus_five);
    position.push(0x01);
    let (offsets, lengths) = build_chain_table(&position, 8, 20, 100).unwrap();
    assert_eq!(offsets, vec![1, 0, 0, 0, 0, 5, 0, 0, 21]);
    assert_eq!(
        lengths,
        vec![4, 0xFFFF_FFFF, 0xFFFF_FFFF, 0, 0, 16, 0xFFFF_FFFD, 0xFFFF_FFFD, 0]
    );
    for i in 0..8 {
        if offsets[i] > 0 {
            assert!(offsets[i] <= 21 && lengths[i] > 0);
        }
    }
}

#[test]
fn chain_table_first_offset_behind_aliases() {
    let (offsets, lengths) = build_chain_table(&[0x01, 0x01, 0x07], 3, 9, 0).unwrap();
    assert_eq!(offsets, vec![0, 0, 3, 10]);
    assert_eq!(lengths, vec![3, 0, 7, 0]);
    let (offsets, lengths) = build_chain_table(&[], 0, 9, 0).unwrap();
    assert_eq!(offsets, vec![10]);
    assert_eq!(lengths, vec![0]);
    let (offsets, lengths) = build_chain_table(&[0x02], 1, 0, 0).unwrap();
    assert_eq!(offsets, vec![0, 1]);
    assert_eq!(lengths, vec![1, 0]);
}

#[test]
fn chain_tables_that_break_a_rule() {
    let bad = |position: &[u8], count: usize, waves_len: usize| {
        let err = build_chain_table(position, count, waves_len, 77).unwrap_err();
        assert_eq!(err.errors, vec![(77, FstFileParseErrorKind::ChainTableMalformed)]);
    };
    bad(&[0x03], 2, 10);
    bad(&[0x03, 0x03], 1, 10);
    bad(&[0x03, 0x03, 0x03], 1, 10);
    bad(&[], 1, 10);
    bad(&[0x06], 2, 10);
    bad(&[0x17], 1, 10);
    bad(&[0x19], 1, 10);
    bad(&[0x03], 1, 0);
    let big = SVarInt(i64::MAX).encode();
    let mut twice = big.clone();
    twice.extend(&big);
    bad(&twice, 2, 10);
    let mut wide = vec![0x03];
    wide.extend(SVarInt((1 << 33) + 1).encode());
    bad(&wide, 2, 10);
    let (offsets, _) = build_chain_table(&[0x15], 1, 10, 77).unwrap();
    assert_eq!(offsets, vec![10, 11]);
}

#[test]
fn chain_table_errors_of_a_number_are_moved_to_the_payload() {
    let err = build_chain_table(&[0x03, 0x81], 2, 10, 100).unwrap_err();
    assert_eq!(
        err.errors,
        vec![
            (101, FstFileParseErrorKind::Truncated),
            (101, FstFileParseErrorKind::Context("svarint")),
        ]
    );
    let err = build_chain_table(&[0x80], 2, 10, 100).unwrap_err();
    assert_eq!(
        err.errors,
        vec![
            (100, FstFileParseErrorKind::Truncated),
            (100, FstFileParseErrorKind::Context("varint")),
        ]
    );
    let mut p = parts();
    p.position = vec![0x03, 0x81];
    let err = alias2(payload(&p)).get_content(&header(2)).unwrap_err();
    assert_eq!(err.errors[0], (39, FstFileParseErrorKind::Truncated));
    let mut p = parts();
    p.position = vec![0x03, 0x03];
    p.waves = vec![];
    let err = alias2(payload(&p)).get_content(&header(2)).unwrap_err();
    assert_eq!(err.errors, vec![(32, FstFileParseErrorKind::ChainTableMalformed)]);
}
