use rules_packer::location::SourceLocation;

#[test]
fn category_is_the_parent_directory_and_filename_the_last_component() {
    let place = SourceLocation::of_path("rules/privacy/clear-cache.yaml");
    assert_eq!(place.category, "privacy");
    assert_eq!(place.filename, "clear-cache.yaml");
}

#[test]
fn only_the_immediate_parent_counts() {
    let place = SourceLocation::of_path("/a/b/c/d/rule.yaml");
    assert_eq!(place.category, "d");
    assert_eq!(place.filename, "rule.yaml");
    let place = SourceLocation::of_path("./rules/system/x.yaml");
    assert_eq!(place.category, "system");
}

#[test]
fn a_file_without_directory_is_in_other() {
    let place = SourceLocation::of_path("rule.yaml");
    assert_eq!(place.category, "other");
    assert_eq!(place.filename, "rule.yaml");
    let place = SourceLocation::of_path("/rule.yaml");
    assert_eq!(place.category, "other");
    assert_eq!(place.filename, "rule.yaml");
}

#[test]
fn a_path_without_file_name_is_unknown() {
    let place = SourceLocation::of_path("");
    assert_eq!(place.category, "other");
    assert_eq!(place.filename, "unknown.yaml");
    let place = SourceLocation::of_path("rules/privacy/..");
    assert_eq!(place.filename, "unknown.yaml");
    assert_eq!(place.category, "privacy");
}

#[test]
fn of_path_agrees_with_the_standard_library() {
    for path in ["rules/privacy/clear-cache.yaml", "a/b", "x", "", "/", "a/../b/c.yaml", "a/b/"] {
        let p = std::path::Path::new(path);
        let category = p
            .parent()
            .and_then(|p| p.file_name())
            .and_then(|n| n.to_str())
            .unwrap_or("other")
            .to_string();
        let filename =
            p.file_name().and_then(|n| n.to_str()).unwrap_or("unknown.yaml").to_string();
        let place = SourceLocation::of_path(path);
        assert_eq!(place.category, category, "category of {:?}", path);
        assert_eq!(place.filename, filename, "file name of {:?}", path);
    }
}

#[test]
fn names_take_their_defaults() {
    let place = SourceLocation::from_names(None, None);
    assert_eq!(place.category, "other");
    assert_eq!(place.filename, "unknown.yaml");
    let place = SourceLocation::from_names(Some("a".to_string()), None);
    assert_eq!(place.category, "a");
    assert_eq!(place.filename, "unknown.yaml");
    let place = SourceLocation::from_names(None, Some("f.yaml".to_string()));
    assert_eq!(place.category, "other");
    assert_eq!(place.filename, "f.yaml");
    let place = SourceLocation::from_names(Some("".to_string()), Some("".to_string()));
    assert_eq!(place.category, "");
    assert_eq!(place.filename, "");
}
