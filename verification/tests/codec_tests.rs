use rules_packer::decode::decode;
use rules_packer::encode::encode;
use rules_packer::model::{
    RegistryEntry, RuleMetadata, RulesPackage, RulesPackageHeader, SerializedRule,
};
use rules_packer::wire::CodecError;

type MetadataTuple = (
    String,
    String,
    String,
    Vec<String>,
    String,
    Option<String>,
    Option<String>,
    String,
    String,
);
type EntryTuple = (String, String, Option<String>, Option<String>, String);
type RuleTuple = (MetadataTuple, String, Vec<String>, Vec<EntryTuple>);
type HeaderTuple = (u32, u64, u64, String, Vec<String>);
type PackageTuple = (HeaderTuple, Vec<RuleTuple>);

fn text(s: &str) -> String {
    s.to_string()
}

fn sample_rule(id: &str, category: &str) -> SerializedRule {
    SerializedRule {
        metadata: RuleMetadata {
            id: text(id),
            name: text("Clear caché"),
            risk: text("low"),
            systeminfo: vec![text("win10"), text("win11")],
            update: text("2024-01-01"),
            author: Some(text("somebody")),
            description: None,
            category: text(category),
            filename: format!("{}.yaml", id),
        },
        yaml_content: format!("id: {}\nname: Clear caché\n", id),
        paths: vec![text("%TEMP%/*"), text("C:/Windows/Temp")],
        registry_entries: vec![
            RegistryEntry {
                path: text("HKCU/Software/X"),
                key: text("*"),
                value: None,
                value_data: Some(text("1")),
                action: text("delete_key"),
            },
            RegistryEntry {
                path: text(""),
                key: text("Run"),
                value: Some(text("v")),
                value_data: None,
                action: text("delete_value"),
            },
        ],
    }
}

fn sample_package() -> RulesPackage {
    RulesPackage {
        header: RulesPackageHeader {
            version: 1,
            created_at: 1_700_000_000,
            rule_count: 2,
            compression: text("zstd"),
            categories: vec![text("privacy"), text("system")],
        },
        rules: vec![sample_rule("clear-cache", "privacy"), sample_rule("temp", "system")],
    }
}

fn metadata_tuple(m: &RuleMetadata) -> MetadataTuple {
    (
        m.id.clone(),
        m.name.clone(),
        m.risk.clone(),
        m.systeminfo.clone(),
        m.update.clone(),
        m.author.clone(),
        m.description.clone(),
        m.category.clone(),
        m.filename.clone(),
    )
}

fn entry_tuple(e: &RegistryEntry) -> EntryTuple {
    (e.path.clone(), e.key.clone(), e.value.clone(), e.value_data.clone(), e.action.clone())
}

fn rule_tuple(r: &SerializedRule) -> RuleTuple {
    let entries: Vec<EntryTuple> = r.registry_entries.iter().map(entry_tuple).collect();
    (metadata_tuple(&r.metadata), r.yaml_content.clone(), r.paths.clone(), entries)
}

fn as_tuple(p: &RulesPackage) -> PackageTuple {
    let header: HeaderTuple = (
        p.header.version,
        p.header.created_at,
        p.header.rule_count as u64,
        p.header.compression.clone(),
        p.header.categories.clone(),
    );
    let rules: Vec<RuleTuple> = p.rules.iter().map(rule_tuple).collect();
    (header, rules)
}

fn empty_package() -> RulesPackage {
    RulesPackage {
        header: RulesPackageHeader {
            version: 1,
            created_at: 7,
            rule_count: 0,
            compression: text("none"),
            categories: Vec::new(),
        },
        rules: Vec::new(),
    }
}

#[test]
fn empty_package_has_the_exact_bytes_of_the_layout() {
    let bytes = encode(&empty_package());
    let mut expected: Vec<u8> = Vec::new();
    expected.extend_from_slice(&[1, 0, 0, 0]);
    expected.extend_from_slice(&[7, 0, 0, 0, 0, 0, 0, 0]);
    expected.extend_from_slice(&[0, 0, 0, 0, 0, 0, 0, 0]);
    expected.extend_from_slice(&[4, 0, 0, 0, 0, 0, 0, 0]);
    expected.extend_from_slice(b"none");
    expected.extend_from_slice(&[0, 0, 0, 0, 0, 0, 0, 0]);
    expected.extend_from_slice(&[0, 0, 0, 0, 0, 0, 0, 0]);
    assert_eq!(bytes, expected);
}

#[test]
fn one_rule_has_the_exact_bytes_of_the_layout() {
    let package = RulesPackage {
        header: RulesPackageHeader {
            version: 0x0102_0304,
            created_at: 0x1122_3344_5566_7788,
            rule_count: 1,
            compression: text("z"),
            categories: vec![text("c")],
        },
        rules: vec![SerializedRule {
            metadata: RuleMetadata {
                id: text("i"),
                name: text(""),
                risk: text("é"),
                systeminfo: vec![text("s")],
                update: text("u"),
                author: Some(text("a")),
                description: None,
                category: text("c"),
                filename: text("f"),
            },
            yaml_content: text("y"),
            paths: vec![],
            registry_entries: vec![RegistryEntry {
                path: text("p"),
                key: text("k"),
                value: None,
                value_data: Some(text("d")),
                action: text("x"),
            }],
        }],
    };
    let one = |c: u8| -> Vec<u8> { vec![1, 0, 0, 0, 0, 0, 0, 0, c] };
    let count = |n: u8| -> Vec<u8> { vec![n, 0, 0, 0, 0, 0, 0, 0] };
    let mut expected: Vec<u8> = Vec::new();
    expected.extend_from_slice(&[4, 3, 2, 1]);
    expected.extend_from_slice(&[0x88, 0x77, 0x66, 0x55, 0x44, 0x33, 0x22, 0x11]);
    expected.extend(count(1));
    expected.extend(one(b'z'));
    expected.extend(count(1));
    expected.extend(one(b'c'));
    // the rules
    expected.extend(count(1));
    expected.extend(one(b'i'));
    expected.extend(count(0));
    expected.extend(count(2));
    expected.extend_from_slice(&[0xC3, 0xA9]);
    expected.extend(count(1));
    expected.extend(one(b's'));
    expected.extend(one(b'u'));
    expected.push(1);
    expected.extend(one(b'a'));
    expected.push(0);
    expected.extend(one(b'c'));
    expected.extend(one(b'f'));
    expected.extend(one(b'y'));
    expected.extend(count(0));
    expected.extend(count(1));
    expected.extend(one(b'p'));
    expected.extend(one(b'k'));
    expected.push(0);
    expected.push(1);
    expected.extend(one(b'd'));
    expected.extend(one(b'x'));
    assert_eq!(encode(&package), expected);
    assert_eq!(decode(&expected), Ok(package));
}

#[test]
fn decode_inverts_encode() {
    let package = sample_package();
    let bytes = encode(&package);
    assert_eq!(decode(&bytes), Ok(package));
    let empty = empty_package();
    assert_eq!(decode(&encode(&empty)), Ok(empty));
}

#[test]
fn encode_is_deterministic() {
    assert_eq!(encode(&sample_package()), encode(&sample_package()));
}

#[test]
fn encode_writes_what_bincode_writes() {
    let package = sample_package();
    let reference = bincode::serialize(&as_tuple(&package)).unwrap();
    assert_eq!(encode(&package), reference);
    let empty = empty_package();
    assert_eq!(encode(&empty), bincode::serialize(&as_tuple(&empty)).unwrap());
}

#[test]
fn decode_reads_what_bincode_reads() {
    let package = sample_package();
    let bytes = bincode::serialize(&as_tuple(&package)).unwrap();
    let decoded = decode(&bytes).unwrap();
    assert_eq!(decoded, package);
    let reference: PackageTuple = bincode::deserialize(&encode(&package)).unwrap();
    assert_eq!(reference, as_tuple(&decoded));
}

#[test]
fn header_count_is_stored_as_it_stands() {
    let mut package = sample_package();
    package.header.rule_count = 99;
    let decoded = decode(&encode(&package)).unwrap();
    assert_eq!(decoded.header.rule_count, 99);
    assert_eq!(decoded.rules.len(), 2);
}

#[test]
fn every_truncation_fails_with_unexpected_end() {
    let bytes = encode(&sample_package());
    for k in 0..bytes.len() {
        assert_eq!(decode(&bytes[..k]), Err(CodecError::UnexpectedEnd), "cut at {}", k);
        assert!(bincode::deserialize::<PackageTuple>(&bytes[..k]).is_err());
    }
}

#[test]
fn empty_input_fails() {
    assert_eq!(decode(&[]), Err(CodecError::UnexpectedEnd));
}

#[test]
fn trailing_bytes_are_ignored() {
    let package = sample_package();
    let mut bytes = encode(&package);
    bytes.extend_from_slice(&[0xFF, 0x00, 0x12]);
    assert_eq!(decode(&bytes), Ok(package));
    assert!(bincode::deserialize::<PackageTuple>(&bytes).is_ok());
}

#[test]
fn invalid_option_tag_is_reported() {
    let package = RulesPackage {
        header: empty_package().header,
        rules: vec![sample_rule("a", "b")],
    };
    let mut bytes = encode(&package);
    let reference = encode(&package);
    // the tag of `author` is the first byte with the value 1 that is followed by
    // the length of "somebody"
    let at = (0..bytes.len() - 9)
        .find(|&i| bytes[i] == 1 && bytes[i + 1..i + 9] == [8, 0, 0, 0, 0, 0, 0, 0])
        .unwrap();
    bytes[at] = 2;
    assert_eq!(decode(&bytes), Err(CodecError::InvalidOptionTag(2)));
    assert!(bincode::deserialize::<PackageTuple>(&bytes).is_err());
    bytes[at] = 0xFF;
    assert_eq!(decode(&bytes), Err(CodecError::InvalidOptionTag(0xFF)));
    bytes[at] = 1;
    assert_eq!(bytes, reference);
}

#[test]
fn invalid_utf8_is_reported() {
    let mut bytes = encode(&empty_package());
    // the compression tag "none" stands behind version, time, count and its length
    assert_eq!(&bytes[28..32], b"none");
    bytes[28] = 0xFF;
    assert_eq!(decode(&bytes), Err(CodecError::InvalidUtf8));
    assert!(bincode::deserialize::<PackageTuple>(&bytes).is_err());
}

#[test]
fn corrupted_length_prefix_fails() {
    let mut bytes = encode(&sample_package());
    // the length of the compression tag
    bytes[20] = 0xFF;
    bytes[27] = 0xFF;
    assert_eq!(decode(&bytes), Err(CodecError::UnexpectedEnd));
    let mut bytes = encode(&sample_package());
    // the number of categories
    for b in bytes[32..40].iter_mut() {
        *b = 0xFF;
    }
    assert!(decode(&bytes).is_err());
}

#[test]
fn strings_keep_their_identity() {
    let mut package = empty_package();
    package.header.compression = text("压缩 ✓ \u{10FFFF}\0");
    package.header.categories = vec![text(""), text("a/b"), text("  ")];
    let decoded = decode(&encode(&package)).unwrap();
    assert_eq!(decoded, package);
}
