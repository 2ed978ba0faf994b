use isascan::feature_set::FeatureSet;
use isascan::features::{FeatureId, bytes_eq, from_name, normalize_name};
use isascan::oracle::{OracleError, merge_oracle_outputs, parse_oracle_output};
use isascan::textline::{line_hex_field, plan_lines};

fn lines(texts: &[&str]) -> Vec<Vec<u8>> {
    texts.iter().map(|t| t.as_bytes().to_vec()).collect()
}

fn set_of(features: &[FeatureId]) -> FeatureSet {
    let mut s = FeatureSet::new();
    for f in features {
        s.insert_feature(*f);
    }
    s
}

#[test]
fn hex_field_of_a_matching_line() {
    let line = b"4004e0 <_start> 31 ed  xor ebp,ebp".to_vec();
    let field = line_hex_field(&line).unwrap();
    assert_eq!(field, b"31 ed".to_vec());
}

#[test]
fn hex_field_of_a_single_pair_line() {
    let line = b"4004ef <main+0xf> 90  nop".to_vec();
    let field = line_hex_field(&line).unwrap();
    assert_eq!(field, b"90".to_vec());
}

#[test]
fn non_matching_lines_have_no_field() {
    assert!(line_hex_field(&b"".to_vec()).is_none());
    assert!(line_hex_field(&b"Disassembly of section .text:".to_vec()).is_none());
    assert!(line_hex_field(&b"4004e0 <_start>:".to_vec()).is_none());
    assert!(line_hex_field(&b"no address here <l> 90  nop".to_vec()).is_none());
    // field must end in whitespace before the text
    assert!(line_hex_field(&b"4004e0 <_start> 31ed".to_vec()).is_none());
}

#[test]
fn plan_keeps_only_matching_lines_in_order() {
    let corpus = lines(&[
        "",
        "binary.elf:     file format elf64-x86-64",
        "Disassembly of section .text:",
        "4004e0 <_start> 31 ed  xor ebp,ebp",
        "some stray text",
        "4004e2 <_start+0x2> c5 fd ef c0  vpxor ymm0,ymm0,ymm0",
        "",
    ]);
    let plan = plan_lines(&corpus);
    assert_eq!(plan.len(), 2);
    assert_eq!(plan[0], b"31 ed".to_vec());
    assert_eq!(plan[1], b"c5 fd ef c0".to_vec());

    // the same corpus without the non-matching lines plans the same work
    let only_valid = lines(&[
        "4004e0 <_start> 31 ed  xor ebp,ebp",
        "4004e2 <_start+0x2> c5 fd ef c0  vpxor ymm0,ymm0,ymm0",
    ]);
    assert_eq!(plan_lines(&only_valid), plan);
}

#[test]
fn oracle_output_with_one_record() {
    let out = lines(&["    MNEMONIC: vpxor", "    ISA-EXT: AVX2", "    MODE: 64"]);
    let fs = parse_oracle_output(&out).unwrap();
    assert!(fs.set_eq(&set_of(&[FeatureId::Avx2])));
}

#[test]
fn oracle_output_without_records_is_empty() {
    let out = lines(&["    MNEMONIC: nop", "    MODE: 64"]);
    let fs = parse_oracle_output(&out).unwrap();
    assert!(fs.is_empty());
}

#[test]
fn oracle_multi_feature_record_splits_on_commas_and_whitespace() {
    let out = lines(&["ISA-EXT: SSE2, BMI1"]);
    let fs = parse_oracle_output(&out).unwrap();
    assert!(fs.set_eq(&set_of(&[FeatureId::Sse2, FeatureId::Bmi1])));
}

#[test]
fn oracle_records_union_across_lines() {
    let out = lines(&["ISA-EXT: SSE2", "filler", "ISA-EXT: AVX"]);
    let fs = parse_oracle_output(&out).unwrap();
    assert!(fs.set_eq(&set_of(&[FeatureId::Sse2, FeatureId::Avx])));
}

#[test]
fn oracle_marker_without_colon_is_unparseable() {
    let out = lines(&["ISA-EXT  AVX2"]);
    assert_eq!(parse_oracle_output(&out).unwrap_err(), OracleError::UnparseableOutput);
}

#[test]
fn oracle_unknown_feature_is_unparseable() {
    let out = lines(&["ISA-EXT: WIDGET9"]);
    assert_eq!(parse_oracle_output(&out).unwrap_err(), OracleError::UnparseableOutput);
}

#[test]
fn merge_skips_failures_and_keeps_the_rest() {
    let outs: Vec<Option<Vec<Vec<u8>>>> = vec![
        Some(lines(&["ISA-EXT: AVX2"])),
        None,
        Some(lines(&["nothing relevant"])),
        Some(lines(&["ISA-EXT: WIDGET9"])),
        Some(lines(&["ISA-EXT: SSE2"])),
    ];
    let fs = merge_oracle_outputs(&outs);
    assert!(fs.set_eq(&set_of(&[FeatureId::Avx2, FeatureId::Sse2])));
}

#[test]
fn names_normalize_at_the_boundary() {
    assert_eq!(from_name(&b"AVX2".to_vec()), Some(FeatureId::Avx2));
    assert_eq!(from_name(&b"avx2".to_vec()), Some(FeatureId::Avx2));
    assert_eq!(from_name(&b"sse4.2".to_vec()), Some(FeatureId::Sse42));
    assert_eq!(from_name(&b"SSE4_2".to_vec()), Some(FeatureId::Sse42));
    assert_eq!(from_name(&b"bmi-1".to_vec()), Some(FeatureId::Bmi1));
    assert_eq!(from_name(&b"NOPE".to_vec()), None);
    assert_eq!(normalize_name(&b"sse4.2".to_vec()), b"SSE42".to_vec());
}

#[test]
fn every_canonical_name_maps_back_to_its_feature() {
    let all = [
        FeatureId::Mmx,
        FeatureId::Sse,
        FeatureId::Sse2,
        FeatureId::Sse3,
        FeatureId::Sse42,
        FeatureId::Avx,
        FeatureId::Avx2,
        FeatureId::Bmi1,
        FeatureId::Bmi2,
        FeatureId::Movbe,
    ];
    for f in all {
        assert_eq!(from_name(&f.name()), Some(f));
        assert_eq!(FeatureId::from_code(f.code()), Some(f));
    }
    assert_eq!(FeatureId::from_code(999), None);
}

#[test]
fn byte_equality_is_exact() {
    assert!(bytes_eq(&b"AVX2".to_vec(), &b"AVX2".to_vec()));
    assert!(!bytes_eq(&b"AVX2".to_vec(), &b"AVX".to_vec()));
    assert!(!bytes_eq(&b"AVX2".to_vec(), &b"AVX3".to_vec()));
}
