use fst_file::error::{FstFileParseErrorKind, PositionError};
use fst_file::primitives::{
    be_i64_at, be_i8_at, be_u64_as_usize_at, be_u64_at, fixed_text_at, in_bounds, le_u64_at,
    rest_of, skip_at, terminated_text_at, u8_at,
};

#[test]
fn fixed_width_numbers() {
    let data = [0x01, 0x02, 0x03, 0x04, 0x05, 0x06, 0x07, 0x08, 0xFF];
    assert_eq!(be_u64_at(&data, 0).unwrap(), (8, 0x0102_0304_0506_0708));
    assert_eq!(le_u64_at(&data, 0).unwrap(), (8, 0x0807_0605_0403_0201));
    assert_eq!(be_u64_at(&data, 1).unwrap(), (9, 0x0203_0405_0607_08FF));
    assert_eq!(be_i64_at(&data, 0).unwrap(), (8, 0x0102_0304_0506_0708));
    assert_eq!(u8_at(&data, 8).unwrap(), (9, 0xFF));
    assert_eq!(be_i8_at(&data, 8).unwrap(), (9, -1));
    assert_eq!(be_u64_as_usize_at(&data, 0).unwrap(), (8, 0x0102_0304_0506_0708));
    let ones = [0xFF; 8];
    assert_eq!(be_u64_at(&ones, 0).unwrap(), (8, u64::MAX));
    assert_eq!(be_i64_at(&ones, 0).unwrap(), (8, -1));
    let min = [0x80, 0, 0, 0, 0, 0, 0, 0];
    assert_eq!(be_i64_at(&min, 0).unwrap(), (8, i64::MIN));
    let minus_five = (-5i64).to_be_bytes();
    assert_eq!(be_i64_at(&minus_five, 0).unwrap(), (8, -5));
}

#[test]
fn short_input_is_truncated_at_the_offset_asked() {
    let data = [0u8; 9];
    assert_eq!(
        be_u64_at(&data, 2).unwrap_err().errors,
        vec![(2, FstFileParseErrorKind::Truncated)]
    );
    assert_eq!(
        le_u64_at(&data, 2).unwrap_err().errors,
        vec![(2, FstFileParseErrorKind::Truncated)]
    );
    assert_eq!(
        u8_at(&data, 9).unwrap_err().errors,
        vec![(9, FstFileParseErrorKind::Truncated)]
    );
    assert_eq!(
        skip_at(&data, 4, 6).unwrap_err().errors,
        vec![(4, FstFileParseErrorKind::Truncated)]
    );
    assert_eq!(skip_at(&data, 4, 5).unwrap(), (9, ()));
    assert_eq!(
        be_u64_as_usize_at(&data, 2).unwrap_err().errors,
        vec![
            (2, FstFileParseErrorKind::Truncated),
            (2, FstFileParseErrorKind::Context("as usize")),
        ]
    );
    assert!(in_bounds(&data, 9, 0));
    assert!(!in_bounds(&data, 10, 0));
    assert!(!in_bounds(&data, 1, usize::MAX));
    assert_eq!(rest_of(&[1, 2, 3], 1), &[2, 3]);
}

#[test]
fn text_in_a_fixed_field() {
    let mut field = b"writer".to_vec();
    field.resize(16, 0);
    field.extend_from_slice(b"next");
    assert_eq!(fixed_text_at(&field, 0, 16).unwrap(), (16, "writer".to_string()));
    assert_eq!(fixed_text_at(&field, 16, 4).unwrap(), (20, "next".to_string()));
    assert_eq!(fixed_text_at(&field, 6, 3).unwrap(), (9, "".to_string()));
    assert_eq!(
        fixed_text_at(&field, 16, 5).unwrap_err().errors,
        vec![(16, FstFileParseErrorKind::Truncated)]
    );
    let odd = [b'a', 0xFF, b'b', 0];
    assert_eq!(fixed_text_at(&odd, 0, 4).unwrap(), (4, "a\u{FFFD}b".to_string()));
}

#[test]
fn text_that_a_nul_ends() {
    let data = b"top\0rest";
    assert_eq!(terminated_text_at(data, 0, 512).unwrap(), (4, "top".to_string()));
    assert_eq!(terminated_text_at(data, 3, 512).unwrap(), (4, "".to_string()));
    let e: PositionError = terminated_text_at(data, 4, 512).unwrap_err();
    assert_eq!(e.errors, vec![(4, FstFileParseErrorKind::StringNotTerminated)]);
    assert_eq!(terminated_text_at(data, 4, 4).unwrap(), (8, "rest".to_string()));
    assert_eq!(terminated_text_at(data, 4, 3).unwrap(), (7, "res".to_string()));
    let e = terminated_text_at(data, 9, 4).unwrap_err();
    assert_eq!(e.errors, vec![(9, FstFileParseErrorKind::StringNotTerminated)]);
}

#[test]
fn a_name_of_512_bytes_without_nul_is_the_whole_field() {
    let long = vec![b'x'; 600];
    let (next, text) = terminated_text_at(&long, 0, 512).unwrap();
    assert_eq!(next, 512);
    assert_eq!(text.len(), 512);
    let mut ended = vec![b'y'; 511];
    ended.push(0);
    let (next, text) = terminated_text_at(&ended, 0, 512).unwrap();
    assert_eq!(next, 512);
    assert_eq!(text.len(), 511);
}

#[test]
fn errors_grow_and_move() {
    let e = PositionError::new(3, FstFileParseErrorKind::Truncated);
    assert_eq!(e.errors, vec![(3, FstFileParseErrorKind::Truncated)]);
    let e = e.context(1, "layer");
    assert_eq!(
        e.errors,
        vec![
            (3, FstFileParseErrorKind::Truncated),
            (1, FstFileParseErrorKind::Context("layer")),
        ]
    );
    let e = e.shifted(10);
    assert_eq!(
        e.errors,
        vec![
            (13, FstFileParseErrorKind::Truncated),
            (11, FstFileParseErrorKind::Context("layer")),
        ]
    );
}
