use rules_packer::assemble::{assemble, FORMAT_VERSION};
use rules_packer::model::{RuleMetadata, SerializedRule};

fn rule(id: &str, category: &str, filename: &str) -> SerializedRule {
    SerializedRule {
        metadata: RuleMetadata {
            id: id.to_string(),
            name: String::new(),
            risk: "low".to_string(),
            systeminfo: Vec::new(),
            update: String::new(),
            author: None,
            description: None,
            category: category.to_string(),
            filename: filename.to_string(),
        },
        yaml_content: format!("id: {}\n", id),
        paths: Vec::new(),
        registry_entries: Vec::new(),
    }
}

#[test]
fn header_counts_the_rules_and_holds_what_was_given() {
    let rules = vec![rule("1", "a", "1.yaml"), rule("2", "b", "2.yaml"), rule("3", "a", "3.yaml")];
    let package = assemble(rules.clone(), "zstd", 1234);
    assert_eq!(package.header.version, 1);
    assert_eq!(FORMAT_VERSION, 1);
    assert_eq!(package.header.created_at, 1234);
    assert_eq!(package.header.rule_count, 3);
    assert_eq!(package.header.rule_count, package.rules.len());
    assert_eq!(package.header.compression, "zstd");
    assert_eq!(package.rules, rules);
}

#[test]
fn categories_are_listed_once_in_first_seen_order() {
    let rules = vec![
        rule("1", "system", "1.yaml"),
        rule("2", "privacy", "2.yaml"),
        rule("3", "system", "3.yaml"),
        rule("4", "apps", "4.yaml"),
        rule("5", "privacy", "5.yaml"),
        rule("6", "apps", "6.yaml"),
    ];
    let package = assemble(rules, "none", 0);
    assert_eq!(package.header.categories, vec!["system", "privacy", "apps"]);
}

#[test]
fn categories_are_not_sorted() {
    let package = assemble(vec![rule("1", "z", "1"), rule("2", "a", "2")], "none", 0);
    assert_eq!(package.header.categories, vec!["z", "a"]);
}

#[test]
fn no_rules_give_an_empty_package() {
    let package = assemble(Vec::new(), "none", 5);
    assert_eq!(package.header.rule_count, 0);
    assert!(package.header.categories.is_empty());
    assert!(package.rules.is_empty());
}

#[test]
fn rules_with_the_same_id_are_all_kept() {
    let rules = vec![rule("same", "a", "1.yaml"), rule("same", "b", "2.yaml"), rule("same", "a", "1.yaml")];
    let package = assemble(rules.clone(), "none", 0);
    assert_eq!(package.header.rule_count, 3);
    assert_eq!(package.rules, rules);
    assert_eq!(package.header.categories, vec!["a", "b"]);
}

#[test]
fn the_compression_name_is_carried_as_it_is() {
    let package = assemble(Vec::new(), "anything at all", 0);
    assert_eq!(package.header.compression, "anything at all");
}
