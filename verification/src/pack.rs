//! Packing: from rule documents to the bytes of a package file.

use crate::assemble::{assemble, assembled};
use crate::compress::{compress, compressed, is_algorithm};
use crate::document::{Node, NodeView};
use crate::encode::encode;
use crate::error::PackError;
use crate::extract::{extract_matches, extract_metadata, metadata_of, paths_of, registry_of};
use crate::laws::lemma_encoding_is_no_stream;
use crate::location::{
    category_of, directory_name_of, file_name_of, filename_of, SourceLocation,
};
use crate::model::{rule_views, RulesPackageView, SerializedRule, SerializedRuleView};
use crate::unpack::package_in;
use crate::wire::{encoding, CodecError};
use crate::yaml::{parse_document, yaml_document, SyntaxError};
use vstd::prelude::*;

verus! {

/// One rule document as it was found: its place and its text.
#[derive(Debug, Clone, PartialEq, Eq)]
pub struct RuleSource {
    pub location: SourceLocation,
    pub content: String,
}

pub struct RuleSourceView {
    pub category: Seq<char>,
    pub filename: Seq<char>,
    pub content: Seq<char>,
}

impl View for RuleSource {
    type V = RuleSourceView;

    open spec fn view(&self) -> RuleSourceView {
        RuleSourceView {
            category: self.location.category@,
            filename: self.location.filename@,
            content: self.content@,
        }
    }
}

/// The views of a list of rule documents, in order.
pub open spec fn source_views(v: Seq<RuleSource>) -> Seq<RuleSourceView> {
    v.map_values(|s: RuleSource| s@)
}

impl RuleSource {
    /// The document with the text `content` that was found at `path`: its
    /// place is the one that the path gives, and its text is kept as it is.
    pub fn at_path(path: &str, content: String) -> (r: RuleSource)
        ensures
            r@ == (RuleSourceView {
                category: category_of(directory_name_of(path@)),
                filename: filename_of(file_name_of(path@)),
                content: content@,
            }),
    {
        RuleSource { location: SourceLocation::of_path(path), content }
    }
}

/// The rule that a document with the text `content`, read as `doc` and found
/// in the directory `category` under the name `filename`, is stored as. The
/// text is kept as it is, beside what was derived from it.
pub open spec fn rule_of(
    doc: NodeView,
    category: Seq<char>,
    filename: Seq<char>,
    content: Seq<char>,
) -> SerializedRuleView {
    SerializedRuleView {
        metadata: metadata_of(doc, category, filename),
        yaml_content: content,
        paths: paths_of(doc),
        registry_entries: registry_of(doc),
    }
}

/// The text of the document is well-formed.
pub open spec fn readable(source: RuleSourceView) -> bool {
    yaml_document(source.content) is Some
}

/// All of the first `n` documents are well-formed.
pub open spec fn readable_before(sources: Seq<RuleSourceView>, n: int) -> bool {
    forall|j: int| 0 <= j < n ==> readable(#[trigger] sources[j])
}

/// The rule that a well-formed document is stored as.
pub open spec fn rule_from(source: RuleSourceView) -> SerializedRuleView {
    rule_of(
        yaml_document(source.content).unwrap(),
        source.category,
        source.filename,
        source.content,
    )
}

/// The rules that the documents are stored as, in the order of the documents.
pub open spec fn rules_from(sources: Seq<RuleSourceView>) -> Seq<SerializedRuleView> {
    sources.map_values(|s: RuleSourceView| rule_from(s))
}

/// Builds the stored form of a rule from its place, its text and the
/// document that was read from the text.
pub fn build_rule(location: &SourceLocation, content: &str, doc: &Node) -> (rule: SerializedRule)
    ensures
        rule@ == rule_of(doc@, location.category@, location.filename@, content@),
{
    let metadata = extract_metadata(location, doc);
    let (paths, registry_entries) = extract_matches(doc);
    SerializedRule { metadata, yaml_content: content.to_owned(), paths, registry_entries }
}

/// Reads one document and builds its rule: the rule that the document is
/// stored as where its text is well-formed, and the parser's complaint where
/// it is not.
pub fn extract_rule(source: &RuleSource) -> (r: Result<SerializedRule, SyntaxError>)
    ensures
        match r {
            Ok(rule) => readable(source@) && rule@ == rule_from(source@),
            Err(_) => !readable(source@),
        },
{
    match parse_document(source.content.as_str()) {
        Ok(doc) => Ok(build_rule(&source.location, source.content.as_str(), &doc)),
        Err(error) => Err(error),
    }
}

/// Reads each document and builds its rule, in order, and stops at the first
/// document whose text is malformed, naming its position.
pub fn extract_rules(sources: &Vec<RuleSource>) -> (r: Result<Vec<SerializedRule>, PackError>)
    ensures
        match r {
            Ok(rules) => {
                &&& readable_before(source_views(sources@), sources@.len() as int)
                &&& rule_views(rules@) == rules_from(source_views(sources@))
            },
            Err(PackError::Extraction { index, .. }) => {
                &&& index < sources@.len()
                &&& readable_before(source_views(sources@), index as int)
                &&& !readable(source_views(sources@)[index as int])
            },
            Err(_) => false,
        },
{
    let mut rules: Vec<SerializedRule> = Vec::new();
    let mut i: usize = 0;
    let ghost all = source_views(sources@);
    while i < sources.len()
        invariant
            i <= sources.len(),
            all == source_views(sources@),
            readable_before(all, i as int),
            rule_views(rules@) =~= rules_from(all.take(i as int)),
        decreases sources.len() - i,
    {
        let source = &sources[i];
        assert(all[i as int] == source@);
        match extract_rule(source) {
            Err(error) => {
                return Err(PackError::Extraction { index: i, message: error.message });
            },
            Ok(rule) => {
                let ghost before = rules@;
                let ghost added = rule@;
                rules.push(rule);
                proof {
                    let done = all.take(i as int + 1);
                    assert(done.drop_last() =~= all.take(i as int));
                    assert(done.last() == all[i as int]);
                    assert(rule_views(rules@) =~= rule_views(before).push(added));
                    assert(rules_from(done) =~= rules_from(done.drop_last()).push(
                        rule_from(done.last()),
                    ));
                }
            },
        }
        i += 1;
    }
    assert(all.take(i as int) =~= all);
    Ok(rules)
}

/// What packing hands back: the bytes of the package file, and what is
/// reported of them.
#[derive(Debug, Clone, PartialEq, Eq)]
pub struct PackOutput {
    /// The bytes to write to the package file.
    pub bytes: Vec<u8>,
    /// The number of rules in the package.
    pub rule_count: usize,
    /// The size of the encoded package before compression.
    pub encoded_size: usize,
}

/// The outcome of storing `package` with the compression `compress`: the
/// bytes of the file, from which reading gives the package back, and what is
/// reported of them; or the refusal of the compression's name; or the
/// compressor's failure.
pub open spec fn store_outcome(
    package: RulesPackageView,
    compress: Seq<char>,
    r: Result<PackOutput, PackError>,
) -> bool {
    match r {
        Ok(out) => {
            &&& is_algorithm(compress)
            &&& out.bytes@ == compressed(encoding(package), compress)
            &&& package_in(out.bytes@) == Ok::<RulesPackageView, CodecError>(package)
            &&& out.rule_count == package.header.rule_count
            &&& out.encoded_size == encoding(package).len()
        },
        Err(PackError::Config { algorithm }) => !is_algorithm(compress) && algorithm@ == compress,
        Err(PackError::Io { .. }) => compress == "zstd"@,
        Err(_) => false,
    }
}

/// Assembles the rules into a package at the time `created_at`, encodes it
/// and compresses the bytes with `compress_with`. With `none` this always
/// succeeds; with `zstd` it fails only where the compressor does; every other
/// name is refused.
pub fn pack_assembled(rules: Vec<SerializedRule>, compress_with: &str, created_at: u64) -> (r:
    Result<PackOutput, PackError>)
    ensures
        store_outcome(assembled(rule_views(rules@), compress_with@, created_at), compress_with@, r),
        compress_with@ == "none"@ ==> r is Ok,
{
    let package = assemble(rules, compress_with, created_at);
    let encoded = encode(&package);
    let encoded_size = encoded.len();
    proof {
        lemma_encoding_is_no_stream(package@);
    }
    match compress(encoded, compress_with) {
        Ok(bytes) => Ok(PackOutput { bytes, rule_count: package.header.rule_count, encoded_size }),
        Err(error) => Err(error),
    }
}

/// The outcome of packing `sources` with the compression `compress` at the
/// time `created_at`: the package of their rules, stored; or the position of
/// the first malformed document; or, where all are well-formed, the refusal
/// of the compression's name or the compressor's failure.
pub open spec fn pack_outcome(
    sources: Seq<RuleSourceView>,
    compress: Seq<char>,
    created_at: u64,
    r: Result<PackOutput, PackError>,
) -> bool {
    match r {
        Err(PackError::Extraction { index, .. }) => {
            &&& index < sources.len()
            &&& readable_before(sources, index as int)
            &&& !readable(sources[index as int])
        },
        _ => {
            &&& readable_before(sources, sources.len() as int)
            &&& store_outcome(assembled(rules_from(sources), compress, created_at), compress, r)
        },
    }
}

/// Packs rule documents into the bytes of a package file: each document is
/// read and its rule extracted, the rules are assembled into a package at the
/// time `created_at`, and the package is encoded and compressed with
/// `compress_with`. A malformed document is reported before a compression
/// name that is not supported. Well-formed documents with `none` always
/// give a package.
pub fn pack_rules(sources: &Vec<RuleSource>, compress_with: &str, created_at: u64) -> (r: Result<
    PackOutput,
    PackError,
>)
    ensures
        pack_outcome(source_views(sources@), compress_with@, created_at, r),
        readable_before(source_views(sources@), sources@.len() as int) && compress_with@
            == "none"@ ==> r is Ok,
{
    match extract_rules(sources) {
        Ok(rules) => pack_assembled(rules, compress_with, created_at),
        Err(error) => Err(error),
    }
}

} // verus!
