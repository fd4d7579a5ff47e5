use fst_file::block_parsers::hierarchy::{
    parse_tokens, Attribute, AttributeType, HierarchyBlock, HierarchyContent, HierarchyToken,
    MiscType, PosistionAndSize, Scope, ScopeBegin, ScopeType, VarDir, VarType, Vcd,
};
use fst_file::block_parsers::Block;
use fst_file::data_types::{BlockType, VarInt};
use fst_file::error::{DecompressReason, FstFileParseErrorKind};
use std::io::Write;

fn gzip(data: &[u8]) -> Vec<u8> {
    let mut e = flate2::write::GzEncoder::new(Vec::new(), flate2::Compression::default());
    e.write_all(data).unwrap();
    e.finish().unwrap()
}

fn with_length(len: u64, stream: &[u8]) -> Vec<u8> {
    let mut p = len.to_be_bytes().to_vec();
    p.extend_from_slice(stream);
    p
}

fn sample_bytes() -> Vec<u8> {
    let mut d = vec![254, 0];
    d.extend_from_slice(b"top\0\0");
    d.extend_from_slice(&[16, 1]);
    d.extend_from_slice(b"clk\0");
    d.extend_from_slice(&[1, 0]);
    d.extend_from_slice(&[252, 0, 0]);
    d.extend_from_slice(b"note\0");
    d.push(5);
    d.push(253);
    d.extend_from_slice(&[254, 1]);
    d.extend_from_slice(b"sub\0lib\0");
    d.push(255);
    d.push(255);
    d
}

fn top() -> HierarchyToken {
    HierarchyToken::ScopeBegin(ScopeBegin {
        scope_type: ScopeType::VcdModule,
        name: "top".to_string(),
        component: "".to_string(),
    })
}

fn clk() -> Vcd {
    Vcd {
        var_type: VarType::VcdWire,
        direction: VarDir::Input,
        name: "clk".to_string(),
        length_of_variable: VarInt(1),
        alias_variable_id: VarInt(0),
    }
}

fn note() -> Attribute {
    Attribute {
        attr_type: AttributeType::Misc,
        misc_type: MiscType::Comment,
        name: "note".to_string(),
        value: VarInt(5),
    }
}

fn placed(tokens: Vec<HierarchyToken>) -> Vec<(PosistionAndSize, HierarchyToken)> {
    tokens
        .into_iter()
        .enumerate()
        .map(|(i, t)| (PosistionAndSize { position: 10 * i, size: 10 }, t))
        .collect()
}

#[test]
fn tokens_with_their_places() {
    let tokens = parse_tokens(&sample_bytes()).unwrap();
    let expected = vec![
        (PosistionAndSize { position: 0, size: 7 }, top()),
        (PosistionAndSize { position: 7, size: 8 }, HierarchyToken::Vcd(clk())),
        (PosistionAndSize { position: 15, size: 9 }, HierarchyToken::Attribute(note())),
        (PosistionAndSize { position: 24, size: 1 }, HierarchyToken::AttributeEnd),
        (
            PosistionAndSize { position: 25, size: 10 },
            HierarchyToken::ScopeBegin(ScopeBegin {
                scope_type: ScopeType::VcdTask,
                name: "sub".to_string(),
                component: "lib".to_string(),
            }),
        ),
        (PosistionAndSize { position: 35, size: 1 }, HierarchyToken::ScopeEnd),
        (PosistionAndSize { position: 36, size: 1 }, HierarchyToken::ScopeEnd),
    ];
    assert_eq!(tokens, expected);
    assert_eq!(parse_tokens(&[]).unwrap(), vec![]);
}

#[test]
fn a_byte_that_is_no_kind_of_variable_is_kept() {
    let tokens = parse_tokens(&[30, 251, 253]).unwrap();
    assert_eq!(
        tokens,
        vec![
            (PosistionAndSize { position: 0, size: 1 }, HierarchyToken::Unknown(30)),
            (PosistionAndSize { position: 1, size: 1 }, HierarchyToken::Unknown(251)),
            (PosistionAndSize { position: 2, size: 1 }, HierarchyToken::AttributeEnd),
        ]
    );
    assert_eq!(
        HierarchyToken::parse_at(&[0, 29, 0, b'x', 0, 2, 3], 1).unwrap(),
        (
            7,
            HierarchyToken::Vcd(Vcd {
                var_type: VarType::SvShortReal,
                direction: VarDir::Implicit,
                name: "x".to_string(),
                length_of_variable: VarInt(2),
                alias_variable_id: VarInt(3),
            })
        )
    );
}

#[test]
fn token_errors() {
    let err = parse_tokens(&[255, 254, 22, b'a', 0, 0]).unwrap_err();
    assert_eq!(err.errors, vec![(2, FstFileParseErrorKind::UnknownScopeType(22))]);
    let err = parse_tokens(&[252, 4, 0, b'a', 0, 0]).unwrap_err();
    assert_eq!(err.errors, vec![(1, FstFileParseErrorKind::UnknownAttrType(4))]);
    let err = parse_tokens(&[252, 0, 9, b'a', 0, 0]).unwrap_err();
    assert_eq!(err.errors, vec![(2, FstFileParseErrorKind::UnknownMiscType(9))]);
    let err = parse_tokens(&[16, 6, b'a', 0, 0, 0]).unwrap_err();
    assert_eq!(err.errors, vec![(1, FstFileParseErrorKind::UnknownVarDir(6))]);
    let err = parse_tokens(&[254, 0, b'a', b'b']).unwrap_err();
    assert_eq!(err.errors, vec![(2, FstFileParseErrorKind::StringNotTerminated)]);
    let err = parse_tokens(&[254, 0, b'a', 0, b'b']).unwrap_err();
    assert_eq!(err.errors, vec![(4, FstFileParseErrorKind::StringNotTerminated)]);
    let err = parse_tokens(&[16, 1, b'a', 0, 0x80]).unwrap_err();
    assert_eq!(
        err.errors,
        vec![
            (4, FstFileParseErrorKind::Truncated),
            (4, FstFileParseErrorKind::Context("varint")),
        ]
    );
    let err = parse_tokens(&[254]).unwrap_err();
    assert_eq!(err.errors, vec![(1, FstFileParseErrorKind::Truncated)]);
    let err = HierarchyToken::parse_at(&[254], 3).unwrap_err();
    assert_eq!(err.errors, vec![(3, FstFileParseErrorKind::Truncated)]);
}

#[test]
fn one_signal_and_no_children() {
    let tokens = placed(vec![top(), HierarchyToken::Vcd(clk()), HierarchyToken::ScopeEnd]);
    let scope = HierarchyContent::parse_structual_hierarchy(&tokens).unwrap();
    assert_eq!(scope.scope_type, ScopeType::VcdModule);
    assert_eq!(scope.name, "top");
    assert_eq!(scope.component, "");
    assert_eq!(scope.signals, vec![clk()]);
    assert_eq!(scope.scopes.len(), 0);
    assert_eq!(scope.attributes.len(), 0);
}

#[test]
fn a_scope_end_behind_the_root_fails() {
    let tokens = placed(vec![
        top(),
        HierarchyToken::Vcd(clk()),
        HierarchyToken::ScopeEnd,
        HierarchyToken::ScopeEnd,
    ]);
    let err = HierarchyContent::parse_structual_hierarchy(&tokens).unwrap_err();
    assert_eq!(err.errors, vec![(30, FstFileParseErrorKind::TrailingBytes)]);
}

#[test]
fn an_open_scope_at_the_end_fails() {
    let tokens = placed(vec![top(), HierarchyToken::Vcd(clk())]);
    let err = HierarchyContent::parse_structual_hierarchy(&tokens).unwrap_err();
    assert_eq!(err.errors, vec![(20, FstFileParseErrorKind::Truncated)]);
    let tokens = placed(vec![top(), top(), HierarchyToken::ScopeEnd]);
    let err = HierarchyContent::parse_structual_hierarchy(&tokens).unwrap_err();
    assert_eq!(err.errors, vec![(30, FstFileParseErrorKind::Truncated)]);
    let err = HierarchyContent::parse_structual_hierarchy(&[]).unwrap_err();
    assert_eq!(err.errors, vec![(0, FstFileParseErrorKind::Truncated)]);
}

#[test]
fn the_first_token_must_open_a_scope() {
    let mut tokens = placed(vec![HierarchyToken::Vcd(clk()), top(), HierarchyToken::ScopeEnd]);
    tokens[0].0.position = 4;
    let err = HierarchyContent::parse_structual_hierarchy(&tokens).unwrap_err();
    assert_eq!(err.errors, vec![(4, FstFileParseErrorKind::Truncated)]);
}

fn count_scopes(scope: &Scope) -> usize {
    1 + scope.scopes.iter().map(count_scopes).sum::<usize>()
}

#[test]
fn the_tree_has_a_scope_for_each_opening() {
    let sub = |name: &str| {
        HierarchyToken::ScopeBegin(ScopeBegin {
            scope_type: ScopeType::VcdFunction,
            name: name.to_string(),
            component: "".to_string(),
        })
    };
    let tokens = placed(vec![
        top(),
        HierarchyToken::Attribute(note()),
        HierarchyToken::AttributeEnd,
        sub("a"),
        HierarchyToken::Vcd(clk()),
        sub("b"),
        HierarchyToken::Unknown(99),
        HierarchyToken::ScopeEnd,
        HierarchyToken::ScopeEnd,
        HierarchyToken::Vcd(clk()),
        sub("c"),
        HierarchyToken::ScopeEnd,
        HierarchyToken::ScopeEnd,
    ]);
    let opens = tokens
        .iter()
        .filter(|t| matches!(t.1, HierarchyToken::ScopeBegin(_)))
        .count();
    let closes = tokens
        .iter()
        .filter(|t| matches!(t.1, HierarchyToken::ScopeEnd))
        .count();
    let root = HierarchyContent::parse_structual_hierarchy(&tokens).unwrap();
    assert_eq!(opens, 4);
    assert_eq!(closes, 4);
    assert_eq!(count_scopes(&root), 4);
    assert_eq!(root.attributes, vec![note()]);
    assert_eq!(root.signals, vec![clk()]);
    assert_eq!(root.scopes.len(), 2);
    assert_eq!(root.scopes[0].name, "a");
    assert_eq!(root.scopes[0].signals, vec![clk()]);
    assert_eq!(root.scopes[0].scopes.len(), 1);
    assert_eq!(root.scopes[0].scopes[0].name, "b");
    assert_eq!(root.scopes[1].name, "c");
    assert_eq!(root.scopes[1].scope_type, ScopeType::VcdFunction);
}

#[test]
fn deep_nesting_folds() {
    let depth = 20_000;
    let mut tokens = Vec::new();
    for _ in 0..depth {
        tokens.push(top());
    }
    for _ in 0..depth {
        tokens.push(HierarchyToken::ScopeEnd);
    }
    let root = HierarchyContent::parse_structual_hierarchy(&placed(tokens)).unwrap();
    let mut levels = 1;
    let mut at = &root;
    while let Some(child) = at.scopes.first() {
        levels += 1;
        at = child;
    }
    assert_eq!(levels, depth);
    std::mem::forget(root);
}

#[test]
fn hierarchy_in_a_gzip_stream() {
    let data = sample_bytes();
    let block = HierarchyBlock::from_block(Block::new(
        BlockType::HierarchyGz,
        with_length(data.len() as u64, &gzip(&data)),
    ));
    assert_eq!(block.block().extract_data().unwrap(), data);
    assert_eq!(block.get_tokens().unwrap(), parse_tokens(&data).unwrap());
    let content = block.get_content().unwrap();
    assert_eq!(
        block.get_content_with_limit(data.len() - 1).unwrap_err().errors,
        vec![(
            0,
            FstFileParseErrorKind::DecompressError(DecompressReason::SizeCapExceeded)
        )]
    );
    assert_eq!(block.get_tokens_with_limit(data.len()).unwrap().len(), 7);
    assert_eq!(content.root_scope.name, "top");
    assert_eq!(content.root_scope.signals, vec![clk()]);
    assert_eq!(content.root_scope.attributes, vec![note()]);
    assert_eq!(content.root_scope.scopes.len(), 1);
    assert_eq!(content.root_scope.scopes[0].component, "lib");
}

#[test]
fn hierarchy_in_an_lz4_block() {
    let data = sample_bytes();
    let block = HierarchyBlock::from_block(Block::new(
        BlockType::HierarchyLz4,
        with_length(data.len() as u64, &lz4_flex::block::compress(&data)),
    ));
    assert_eq!(block.block().extract_data().unwrap(), data);
    assert_eq!(block.get_content().unwrap().root_scope.scopes[0].name, "sub");
}

#[test]
fn hierarchy_in_two_lz4_blocks() {
    let data: Vec<u8> = sample_bytes();
    let once = lz4_flex::block::compress(&data);
    let twice = lz4_flex::block::compress(&once);
    let mut payload = (data.len() as u64).to_be_bytes().to_vec();
    payload.extend_from_slice(&(once.len() as u64).to_be_bytes());
    payload.extend_from_slice(&twice);
    let mut block = HierarchyBlock::from_block(Block::new(BlockType::HierarchyLz4Duo, payload));
    assert_eq!(block.block().extract_data().unwrap(), data);
    assert_eq!(block.get_tokens().unwrap().len(), 7);
    assert_eq!(block.decoded().unwrap().root_scope.name, "top");
    assert_eq!(block.decoded().unwrap().root_scope.scopes.len(), 1);
}

#[test]
fn hierarchy_errors_of_the_block() {
    let block = HierarchyBlock::from_block(Block::new(BlockType::Geometry, sample_bytes()));
    assert_eq!(
        block.get_tokens().unwrap_err().errors,
        vec![(0, FstFileParseErrorKind::UnknownBlockKind(3))]
    );
    assert_eq!(
        block.get_content().unwrap_err().errors,
        vec![(0, FstFileParseErrorKind::UnknownBlockKind(3))]
    );
    let block = HierarchyBlock::from_block(Block::new(BlockType::HierarchyGz, vec![0; 7]));
    assert_eq!(
        block.get_tokens().unwrap_err().errors,
        vec![(
            0,
            FstFileParseErrorKind::DecompressError(DecompressReason::MissingLength)
        )]
    );
    let block = HierarchyBlock::from_block(Block::new(
        BlockType::HierarchyGz,
        with_length(4, &[1, 2, 3, 4]),
    ));
    assert_eq!(
        block.get_content().unwrap_err().errors,
        vec![(
            0,
            FstFileParseErrorKind::DecompressError(DecompressReason::IoError)
        )]
    );
    let block = HierarchyBlock::from_block(Block::new(
        BlockType::HierarchyLz4,
        with_length(4, &[0xF0]),
    ));
    assert_eq!(
        block.get_content().unwrap_err().errors,
        vec![(0, FstFileParseErrorKind::DecompressError(DecompressReason::Lz4))]
    );
    let data = [255u8];
    let mut block = HierarchyBlock::from_block(Block::new(
        BlockType::HierarchyGz,
        with_length(1, &gzip(&data)),
    ));
    let expected = vec![
        (0, FstFileParseErrorKind::Truncated),
        (0, FstFileParseErrorKind::Context("expanded data")),
    ];
    assert_eq!(block.get_content().unwrap_err().errors, expected);
    assert_eq!(block.decoded().unwrap_err().errors, expected);
    assert_eq!(block.decoded().unwrap_err().errors, expected);
    let data = [16u8, 9];
    let block = HierarchyBlock::from_block(Block::new(
        BlockType::HierarchyGz,
        with_length(2, &gzip(&data)),
    ));
    assert_eq!(
        block.get_tokens().unwrap_err().errors,
        vec![
            (1, FstFileParseErrorKind::UnknownVarDir(9)),
            (0, FstFileParseErrorKind::Context("expanded data")),
        ]
    );
}

#[test]
fn copies_of_tokens_are_equal() {
    assert_eq!(note().duplicate(), note());
    assert_eq!(clk().duplicate(), clk());
    let s = Scope::new(ScopeType::VhdlBlock, "n".to_string(), "c".to_string());
    assert_eq!(s.scope_type, ScopeType::VhdlBlock);
    assert_eq!(s.name, "n");
    assert_eq!(s.component, "c");
    assert!(s.attributes.is_empty() && s.signals.is_empty() && s.scopes.is_empty());
}
