use rules_packer::decode::decode;
use rules_packer::error::PackError;
use rules_packer::location::SourceLocation;
use rules_packer::pack::{build_rule, extract_rules, pack_assembled, pack_rules, RuleSource};
use rules_packer::unpack::{output_files, read_package, show_info, unpack_rules, OutputFile};
use rules_packer::wire::CodecError;
use rules_packer::yaml::parse_document;

const RULE_A: &str = "id: rule-a\nname: First\nrisk: high\nmatch:\n  path: ['C:/a']\n";
const RULE_B: &str = "# a comment that must survive\nid: rule-b\nname:   Second  \n";

fn two_sources() -> Vec<RuleSource> {
    vec![
        RuleSource::at_path("rules/a/first.yaml", RULE_A.to_string()),
        RuleSource::at_path("rules/b/second.yaml", RULE_B.to_string()),
    ]
}

#[test]
fn two_categories_are_packed_and_unpacked() {
    for algorithm in ["zstd", "none"] {
        let packed = pack_rules(&two_sources(), algorithm, 1_700_000_000).unwrap();
        assert_eq!(packed.rule_count, 2);

        let info = show_info(&packed.bytes).unwrap();
        assert_eq!(info.rule_count, 2);
        assert_eq!(info.categories, vec!["a", "b"]);
        assert_eq!(info.version, 1);
        assert_eq!(info.created_at, 1_700_000_000);
        assert_eq!(info.compression, algorithm);
        assert_eq!(info.size, packed.bytes.len());
        assert_eq!(info.rules.len(), 2);
        assert_eq!(info.rules[0].id, "rule-a");
        assert_eq!(info.rules[0].name, "First");
        assert_eq!(info.rules[0].risk, "high");
        assert_eq!(info.rules[1].id, "rule-b");
        assert_eq!(info.rules[1].name, "Second");
        assert_eq!(info.rules[1].risk, "low");

        let unpacked = unpack_rules(&packed.bytes).unwrap();
        assert_eq!(unpacked.rule_count, 2);
        assert_eq!(
            unpacked.files,
            vec![
                OutputFile {
                    category: "a".to_string(),
                    filename: "first.yaml".to_string(),
                    content: RULE_A.to_string(),
                },
                OutputFile {
                    category: "b".to_string(),
                    filename: "second.yaml".to_string(),
                    content: RULE_B.to_string(),
                },
            ]
        );
    }
}

#[test]
fn pack_reports_the_sizes() {
    let plain = pack_rules(&two_sources(), "none", 5).unwrap();
    assert_eq!(plain.encoded_size, plain.bytes.len());
    let small = pack_rules(&two_sources(), "zstd", 5).unwrap();
    assert_eq!(small.encoded_size, plain.bytes.len());
    assert_ne!(small.bytes, plain.bytes);
    assert_eq!(&small.bytes[..4], &[0x28, 0xB5, 0x2F, 0xFD]);
}

#[test]
fn unsupported_compression_is_refused_by_name() {
    let r = pack_rules(&two_sources(), "rot13", 0);
    assert_eq!(r, Err(PackError::Config { algorithm: "rot13".to_string() }));
    let r = pack_assembled(Vec::new(), "rot13", 0);
    assert_eq!(r, Err(PackError::Config { algorithm: "rot13".to_string() }));
}

#[test]
fn a_malformed_document_is_named_by_its_position() {
    let mut sources = two_sources();
    sources.push(RuleSource::at_path("rules/b/bad.yaml", "id: [unclosed".to_string()));
    sources.push(RuleSource::at_path("rules/b/worse.yaml", "a: b: c".to_string()));
    match pack_rules(&sources, "zstd", 0) {
        Err(PackError::Extraction { index, message }) => {
            assert_eq!(index, 2);
            assert!(!message.is_empty());
        },
        other => panic!("not refused: {:?}", other),
    }
    match extract_rules(&sources) {
        Err(PackError::Extraction { index, .. }) => assert_eq!(index, 2),
        other => panic!("not refused: {:?}", other),
    }
}

#[test]
fn a_malformed_document_comes_before_a_bad_compression_name() {
    let sources = vec![RuleSource::at_path("rules/a/bad.yaml", "{".to_string())];
    match pack_rules(&sources, "rot13", 0) {
        Err(PackError::Extraction { index, .. }) => assert_eq!(index, 0),
        other => panic!("not refused: {:?}", other),
    }
}

#[test]
fn packing_twice_gives_the_same_bytes() {
    for algorithm in ["zstd", "none"] {
        let first = pack_rules(&two_sources(), algorithm, 42).unwrap();
        let second = pack_rules(&two_sources(), algorithm, 42).unwrap();
        assert_eq!(first, second);
    }
}

#[test]
fn the_time_changes_only_its_field() {
    let first = pack_rules(&two_sources(), "none", 1).unwrap().bytes;
    let second = pack_rules(&two_sources(), "none", 0xFFFF_FFFF_FFFF).unwrap().bytes;
    assert_eq!(first.len(), second.len());
    assert_eq!(first[..4], second[..4]);
    assert_eq!(first[12..], second[12..]);
    assert_eq!(first[4..12], [1, 0, 0, 0, 0, 0, 0, 0]);
    assert_eq!(second[4..12], [0xFF, 0xFF, 0xFF, 0xFF, 0xFF, 0xFF, 0, 0]);
}

#[test]
fn the_text_is_stored_verbatim() {
    let text = "  # odd   spacing\r\nid:    x   \n\n\nname: \"quoted\"\n...\n";
    let sources = vec![RuleSource::at_path("rules/c/odd.yaml", text.to_string())];
    let packed = pack_rules(&sources, "zstd", 0).unwrap();
    let unpacked = unpack_rules(&packed.bytes).unwrap();
    assert_eq!(unpacked.files[0].content, text);
    let package = read_package(&packed.bytes).unwrap();
    assert_eq!(package.rules[0].yaml_content, text);
    assert_eq!(package.rules[0].metadata.id, "x");
    assert_eq!(package.rules[0].metadata.name, "quoted");
}

#[test]
fn no_documents_give_an_empty_package() {
    let packed = pack_rules(&Vec::new(), "zstd", 9).unwrap();
    assert_eq!(packed.rule_count, 0);
    let info = show_info(&packed.bytes).unwrap();
    assert_eq!(info.rule_count, 0);
    assert!(info.categories.is_empty());
    assert!(info.rules.is_empty());
    assert!(unpack_rules(&packed.bytes).unwrap().files.is_empty());
}

#[test]
fn the_declared_compression_is_not_trusted() {
    // a package that says "zstd" but is stored plain, and one the other way round
    let plain = pack_rules(&two_sources(), "none", 3).unwrap().bytes;
    let declared_none = read_package(&plain).unwrap();
    let squeezed = zstd::stream::encode_all(&plain[..], 0).unwrap();
    assert_eq!(read_package(&squeezed).unwrap(), declared_none);
    assert_eq!(read_package(&squeezed).unwrap().header.compression, "none");
}

#[test]
fn a_truncated_package_file_fails_with_a_codec_error() {
    for algorithm in ["none", "zstd"] {
        let bytes = pack_rules(&two_sources(), algorithm, 3).unwrap().bytes;
        for k in 0..bytes.len() {
            match read_package(&bytes[..k]) {
                Err(PackError::Codec(_)) => {},
                other => panic!("{} cut at {}: {:?}", algorithm, k, other),
            }
            assert!(matches!(unpack_rules(&bytes[..k]), Err(PackError::Codec(_))));
            assert!(matches!(show_info(&bytes[..k]), Err(PackError::Codec(_))));
        }
    }
}

#[test]
fn a_corrupted_package_file_fails_with_a_codec_error() {
    assert_eq!(read_package(&[]), Err(PackError::Codec(CodecError::UnexpectedEnd)));
    assert_eq!(read_package(b"not a package"), Err(PackError::Codec(CodecError::UnexpectedEnd)));
    let mut bytes = pack_rules(&two_sources(), "none", 3).unwrap().bytes;
    bytes[20] = 0xEE;
    assert!(matches!(read_package(&bytes), Err(PackError::Codec(_))));
}

#[test]
fn build_rule_keeps_text_and_derives_fields() {
    let doc = parse_document(RULE_A).ok().unwrap();
    let place = SourceLocation { category: "a".to_string(), filename: "first.yaml".to_string() };
    let rule = build_rule(&place, RULE_A, &doc);
    assert_eq!(rule.yaml_content, RULE_A);
    assert_eq!(rule.metadata.id, "rule-a");
    assert_eq!(rule.metadata.category, "a");
    assert_eq!(rule.metadata.filename, "first.yaml");
    assert_eq!(rule.paths, vec!["C:/a"]);
    assert!(rule.registry_entries.is_empty());
}

#[test]
fn output_files_follow_the_rules() {
    let bytes = pack_rules(&two_sources(), "none", 3).unwrap().bytes;
    let package = decode(&bytes).unwrap();
    let files = output_files(&package);
    assert_eq!(files.len(), 2);
    assert_eq!(files[1].category, "b");
    assert_eq!(files[1].filename, "second.yaml");
    assert_eq!(files[1].content, RULE_B);
}

#[test]
fn rules_with_the_same_id_stay_apart() {
    let sources = vec![
        RuleSource::at_path("rules/a/one.yaml", "id: same\n".to_string()),
        RuleSource::at_path("rules/b/two.yaml", "id: same\n".to_string()),
    ];
    let packed = pack_rules(&sources, "zstd", 0).unwrap();
    let info = show_info(&packed.bytes).unwrap();
    assert_eq!(info.rule_count, 2);
    assert_eq!(info.rules[0].id, "same");
    assert_eq!(info.rules[1].id, "same");
    assert_eq!(unpack_rules(&packed.bytes).unwrap().files.len(), 2);
}
