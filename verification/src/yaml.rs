//! Reading a structured document from YAML text.

use crate::document::{Node, NodeView};
use serde_yaml::Value;
use vstd::prelude::*;

verus! {

/// `serde_yaml::Value`, a parsed YAML value; it is only handed on.
#[verifier::external_type_specification]
#[verifier::external_body]
pub struct ExYamlValue(serde_yaml::Value);

/// `serde_yaml::Error`, the parser's complaint; only its message is read.
#[verifier::external_type_specification]
#[verifier::external_body]
pub struct ExYamlError(serde_yaml::Error);

/// The document that `serde_yaml::from_str` reads from a text, or nothing
/// where it rejects the text.
pub uninterp spec fn yaml_document(text: Seq<char>) -> Option<NodeView>;

/// What a parsed YAML value holds, as a document value: its kind, its string,
/// its items or its entries in order, and the value under a tag.
pub uninterp spec fn yaml_tree(value: serde_yaml::Value) -> NodeView;

/// `serde_yaml::from_str`, asked for a `serde_yaml::Value`. The parser reads
/// nothing but the text, so the same text always gives the same outcome.
#[verifier::external_body]
fn yaml_from_str(text: &str) -> (r: Result<serde_yaml::Value, serde_yaml::Error>)
    ensures
        match r {
            Ok(value) => yaml_document(text@) == Some(yaml_tree(value)),
            Err(_) => yaml_document(text@) is None,
        },
{
    serde_yaml::from_str::<Value>(text)
}

/// Copies a `serde_yaml::Value` into a `Node`, variant for variant: strings,
/// sequences and mappings keep their contents and order, a number keeps only
/// its kind, and a tagged value keeps the value under the tag.
#[verifier::external_body]
fn node_of_value(value: &serde_yaml::Value) -> (n: Node)
    ensures
        n@ == yaml_tree(*value),
{
    match value {
        Value::Null => Node::Null,
        Value::Bool(b) => Node::Bool(*b),
        Value::Number(_) => Node::Number,
        Value::String(s) => Node::Text(s.clone()),
        Value::Sequence(items) => Node::List(items.iter().map(node_of_value).collect()),
        Value::Mapping(entries) => Node::Table(
            entries.iter().map(|(k, v)| (node_of_value(k), node_of_value(v))).collect(),
        ),
        Value::Tagged(tagged) => Node::Tagged(Box::new(node_of_value(&tagged.value))),
    }
}

/// The message of a `serde_yaml::Error`, as its `Display` writes it.
#[verifier::external_body]
fn yaml_error_text(error: &serde_yaml::Error) -> (message: String) {
    error.to_string()
}

/// What went wrong with a text that is no document.
#[derive(Debug, Clone, PartialEq, Eq)]
pub struct SyntaxError {
    pub message: String,
}

/// Reads a document from YAML text: the document that the parser finds in
/// the text, or its complaint where the text is malformed.
pub fn parse_document(text: &str) -> (r: Result<Node, SyntaxError>)
    ensures
        match r {
            Ok(document) => yaml_document(text@) == Some(document@),
            Err(_) => yaml_document(text@) is None,
        },
{
    match yaml_from_str(text) {
        Ok(value) => Ok(node_of_value(&value)),
        Err(error) => Err(SyntaxError { message: yaml_error_text(&error) }),
    }
}

} // verus!
