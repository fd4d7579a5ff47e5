use fst_file::block_parsers::hierarchy::ScopeType;
use fst_file::data_types::{BlockType, FileType, VarInt};
use fst_file::error::{DecompressReason, FstFileParseErrorKind};
use fst_file::{parse, parse_raw_block_information, parse_with_limit};
use std::io::Write;

fn gzip(data: &[u8]) -> Vec<u8> {
    let mut e = flate2::write::GzEncoder::new(Vec::new(), flate2::Compression::default());
    e.write_all(data).unwrap();
    e.finish().unwrap()
}

fn block(kind: u8, payload: &[u8]) -> Vec<u8> {
    let mut out = vec![kind];
    out.extend_from_slice(&((payload.len() as u64) + 8).to_be_bytes());
    out.extend_from_slice(payload);
    out
}

fn header_payload() -> Vec<u8> {
    let mut p = Vec::new();
    p.extend_from_slice(&0u64.to_be_bytes());
    p.extend_from_slice(&30u64.to_be_bytes());
    p.extend_from_slice(&std::f64::consts::E.to_le_bytes());
    p.extend_from_slice(&4096u64.to_be_bytes());
    p.extend_from_slice(&1u64.to_be_bytes());
    p.extend_from_slice(&2u64.to_be_bytes());
    p.extend_from_slice(&2u64.to_be_bytes());
    p.extend_from_slice(&1u64.to_be_bytes());
    p.push((-9i8) as u8);
    let mut writer = b"sample writer".to_vec();
    writer.resize(128, 0);
    p.extend_from_slice(&writer);
    let mut date = b"Mon Jan  1 12:00:00 2024".to_vec();
    date.resize(26, 0);
    p.extend_from_slice(&date);
    p.extend_from_slice(&[0u8; 93]);
    p.push(0);
    p.extend_from_slice(&0i64.to_be_bytes());
    p
}

fn hierarchy_bytes() -> Vec<u8> {
    let mut d = vec![254, 0];
    d.extend_from_slice(b"top\0\0");
    d.extend_from_slice(&[16, 1]);
    d.extend_from_slice(b"clk\0");
    d.extend_from_slice(&[1, 0]);
    d.extend_from_slice(&[5, 0]);
    d.extend_from_slice(b"data\0");
    d.extend_from_slice(&[8, 0]);
    d.push(255);
    d
}

fn vcd_payload() -> Vec<u8> {
    let mut out = Vec::new();
    out.extend_from_slice(&0u64.to_be_bytes());
    out.extend_from_slice(&30u64.to_be_bytes());
    out.extend_from_slice(&64u64.to_be_bytes());
    out.extend_from_slice(&[2, 2, 2]);
    out.extend_from_slice(b"0x");
    out.extend_from_slice(&[2, b'Z']);
    out.extend_from_slice(&[1, 2, 3, 4, 5, 6]);
    out.extend_from_slice(&[0x03, 0x07]);
    out.extend_from_slice(&2u64.to_be_bytes());
    out.extend_from_slice(&[10, 20]);
    out.extend_from_slice(&2u64.to_be_bytes());
    out.extend_from_slice(&2u64.to_be_bytes());
    out.extend_from_slice(&2u64.to_be_bytes());
    out
}

fn get_test_file_content() -> Vec<u8> {
    let mut v = block(0, &header_payload());
    let mut geometry = 2u64.to_be_bytes().to_vec();
    geometry.extend_from_slice(&2u64.to_be_bytes());
    geometry.extend_from_slice(&[1, 8]);
    v.extend(block(8, &vcd_payload()));
    v.extend(block(3, &geometry));
    v.extend(block(2, &[1, 1, 15]));
    let tokens = hierarchy_bytes();
    let mut hierarchy = (tokens.len() as u64).to_be_bytes().to_vec();
    hierarchy.extend_from_slice(&gzip(&tokens));
    v.extend(block(4, &hierarchy));
    v
}

#[test]
fn print_debug() {
    let content = get_test_file_content();
    let blocks = fst_file::parse(&content).unwrap();
    println!("{:?}", &blocks);

    let header = blocks.header;
    let header_content = header.unwrap().get_content().unwrap();
    println!("{:?}", &header_content);

    let geometry = blocks.geometry.unwrap();
    let geometry_content = geometry.get_content().unwrap();
    println!("{:?}", &geometry_content);

    let hierarchy = blocks.hierarchy.unwrap();
    let hierarchy_content = hierarchy.get_content().unwrap();
    println!("{:?}", &hierarchy_content);

    let blackout = blocks.blackout.unwrap();
    let blackout_content = blackout.get_content().unwrap();
    println!("{:?}", &blackout_content);
}

#[test]
fn parse_blocks() {
    let content = get_test_file_content();
    let blocks = fst_file::parse_raw_block_information(&content).unwrap();
    let kinds: Vec<BlockType> = blocks.iter().map(|b| b.get_block().block_type).collect();
    assert_eq!(
        kinds,
        vec![
            BlockType::Header,
            BlockType::ValueChangeDataAlias2,
            BlockType::Geometry,
            BlockType::Blackout,
            BlockType::HierarchyGz,
        ]
    );
    assert_eq!(blocks[0].get_block_length(), 330);
    assert_eq!(blocks[1].get_block_start_offset(), 330);
    let total: usize = blocks.iter().map(|b| b.get_block_length()).sum();
    assert_eq!(total, content.len());
}

#[test]
fn parse_contents() {
    let content = get_test_file_content();
    let c = fst_file::parse(&content).unwrap();
    assert!(c.header.is_some() && c.hierarchy.is_some());
    assert!(c.blackout.is_some() && c.geometry.is_some());
    assert_eq!(c.value_change_data.len(), 1);
}

#[test]
fn parse_header() {
    let content = get_test_file_content();
    let blocks = fst_file::parse(&content).unwrap();
    let h = blocks.header.unwrap().get_content().unwrap();
    assert_eq!(h.writer, "sample writer");
    assert_eq!(h.date, "Mon Jan  1 12:00:00 2024");
    assert_eq!(h.end_time, 30);
    assert_eq!(h.filetype, FileType::Verilog);
}

#[test]
fn parse_geometry() {
    let content = get_test_file_content();
    let blocks = fst_file::parse(&content).unwrap();
    let g = blocks.geometry.unwrap().get_content().unwrap();
    assert_eq!(g.0, vec![VarInt(1), VarInt(8)]);
}

#[test]
fn parse_hierarchy() {
    let content = get_test_file_content();
    let contents = fst_file::parse(&content).unwrap();
    let hierarchy = contents.hierarchy.unwrap();
    let root = hierarchy.get_content().unwrap().root_scope;
    assert_eq!(root.scope_type, ScopeType::VcdModule);
    assert_eq!(root.name, "top");
    assert_eq!(root.signals.len(), 2);
    assert_eq!(root.signals[1].name, "data");
    assert_eq!(root.signals[1].length_of_variable, VarInt(8));
}

#[test]
fn parse_blackout() {
    let content = get_test_file_content();
    let blocks = fst_file::parse(&content).unwrap();
    let b = blocks.blackout.unwrap().get_content().unwrap();
    assert_eq!(b.records.len(), 1);
    assert!(b.records[0].active);
    assert_eq!(b.records[0].time_delta, VarInt(15));
}

#[test]
fn parse_value_changes_of_the_file() {
    let content = get_test_file_content();
    let blocks = parse(&content).unwrap();
    let mut blocks = blocks;
    let header = blocks.header.unwrap().get_content().unwrap();
    let kept = blocks.value_change_data[0].decoded(&header).unwrap().time_data.clone();
    assert_eq!(kept, vec![10, 30]);
    let vcd = blocks.value_change_data[0].get_content(&header).unwrap();
    assert_eq!(vcd.time_data, vec![10, 30]);
    assert_eq!(*vcd.time_data.last().unwrap(), header.end_time);
    assert_eq!(vcd.chain_table, vec![1, 4, 7]);
    assert_eq!(vcd.chain_table_lengths, vec![3, 3, 0]);
}

#[test]
fn a_damaged_block_does_not_spoil_the_others() {
    let mut v = block(0, &header_payload()[..100]);
    let mut geometry = 2u64.to_be_bytes().to_vec();
    geometry.extend_from_slice(&2u64.to_be_bytes());
    geometry.extend_from_slice(&[1, 8]);
    v.extend(block(3, &geometry));
    let c = parse(&v).unwrap();
    assert!(c.header.unwrap().get_content().is_err());
    assert_eq!(c.geometry.unwrap().get_content().unwrap().0.len(), 2);
}

#[test]
fn a_file_inside_a_gzip_stream() {
    let inner = get_test_file_content();
    let mut payload = (inner.len() as u64).to_be_bytes().to_vec();
    payload.extend_from_slice(&gzip(&inner));
    let outer = block(254, &payload);
    let framed = parse_raw_block_information(&outer).unwrap();
    assert_eq!(framed.len(), 1);
    assert_eq!(framed[0].get_block().block_type, BlockType::GZippedWrapper);
    let c = parse(&outer).unwrap();
    assert_eq!(c.header.unwrap().get_content().unwrap().writer, "sample writer");
    assert_eq!(c.value_change_data.len(), 1);
    assert!(c.hierarchy.is_some());
}

#[test]
fn the_first_wrapper_stands_for_the_file() {
    let inner = block(2, &[0]);
    let mut payload = (inner.len() as u64).to_be_bytes().to_vec();
    payload.extend_from_slice(&gzip(&inner));
    let mut outer = block(3, &[1, 2, 3]);
    outer.extend(block(254, &payload));
    outer.extend(block(8, &[4]));
    let c = parse(&outer).unwrap();
    assert!(c.geometry.is_none());
    assert!(c.value_change_data.is_empty());
    assert_eq!(c.blackout.unwrap().block().data, vec![0]);
}

#[test]
fn a_wrapper_inside_a_wrapper_is_passed_over() {
    let innermost = block(2, &[0]);
    let mut p = (innermost.len() as u64).to_be_bytes().to_vec();
    p.extend_from_slice(&gzip(&innermost));
    let mut inner = block(254, &p);
    inner.extend(block(3, &[9]));
    let mut q = (inner.len() as u64).to_be_bytes().to_vec();
    q.extend_from_slice(&gzip(&inner));
    let c = parse(&block(254, &q)).unwrap();
    assert!(c.blackout.is_none());
    assert_eq!(c.geometry.unwrap().block().data, vec![9]);
}

#[test]
fn errors_of_a_wrapper() {
    let mut outer = block(255, &[]);
    outer.extend(block(254, &[0, 0, 0, 0, 0, 0, 0, 4, 1, 2, 3, 4]));
    assert_eq!(
        parse(&outer).unwrap_err().errors,
        vec![(
            9,
            FstFileParseErrorKind::DecompressError(DecompressReason::IoError)
        )]
    );
    let inner = vec![0xFAu8; 40];
    let mut payload = 40u64.to_be_bytes().to_vec();
    payload.extend_from_slice(&gzip(&inner));
    let outer = block(254, &payload);
    let err = parse(&outer).unwrap_err();
    assert_eq!(err.errors[0], (0, FstFileParseErrorKind::UnknownBlockKind(0xFA)));
    assert_eq!(
        err.errors.last().unwrap(),
        &(0, FstFileParseErrorKind::Context("expanded data"))
    );
    assert_eq!(
        parse_with_limit(&outer, 39).unwrap_err().errors,
        vec![(
            0,
            FstFileParseErrorKind::DecompressError(DecompressReason::SizeCapExceeded)
        )]
    );
}
