//! Reading a package file: the package itself, the files to write it out as,
//! and a summary of it.

use crate::compress::{decompress, decompressed};
use crate::decode::decode;
use crate::error::PackError;
use crate::model::{
    rule_views, texts, RulesPackage, RulesPackageView, SerializedRule, SerializedRuleView,
};
use crate::wire::{decoding, CodecError};
use vstd::prelude::*;

verus! {

/// The package that the bytes of a package file hold: what decoding finds
/// under the compression layer.
pub open spec fn package_in(bytes: Seq<u8>) -> Result<RulesPackageView, CodecError> {
    decoding(decompressed(bytes))
}

/// Reads a package from the bytes of a package file, compressed or not.
/// Whether they are compressed is found out from the bytes; the header's word
/// on it is not used.
pub fn read_package(bytes: &[u8]) -> (r: Result<RulesPackage, PackError>)
    ensures
        match r {
            Ok(package) => package_in(bytes@) == Ok::<RulesPackageView, CodecError>(package@),
            Err(PackError::Codec(e)) => package_in(bytes@) == Err::<RulesPackageView, CodecError>(
                e,
            ),
            Err(_) => false,
        },
{
    let plain = decompress(bytes);
    match decode(plain.as_slice()) {
        Ok(package) => Ok(package),
        Err(e) => Err(PackError::Codec(e)),
    }
}

/// A file to write when a package is unpacked: `content`, to the file
/// `filename` in the directory `category` of the output directory.
#[derive(Debug, Clone, PartialEq, Eq)]
pub struct OutputFile {
    pub category: String,
    pub filename: String,
    pub content: String,
}

pub struct OutputFileView {
    pub category: Seq<char>,
    pub filename: Seq<char>,
    pub content: Seq<char>,
}

impl View for OutputFile {
    type V = OutputFileView;

    open spec fn view(&self) -> OutputFileView {
        OutputFileView {
            category: self.category@,
            filename: self.filename@,
            content: self.content@,
        }
    }
}

/// The views of a list of files, in order.
pub open spec fn file_views(v: Seq<OutputFile>) -> Seq<OutputFileView> {
    v.map_values(|f: OutputFile| f@)
}

/// The file that a rule is written out as: the text of its document, under
/// the document's file name, in the directory of its category.
pub open spec fn file_of(rule: SerializedRuleView) -> OutputFileView {
    OutputFileView {
        category: rule.metadata.category,
        filename: rule.metadata.filename,
        content: rule.yaml_content,
    }
}

/// One file for each rule, in the order of the rules.
pub open spec fn files_of(rules: Seq<SerializedRuleView>) -> Seq<OutputFileView> {
    rules.map_values(|r: SerializedRuleView| file_of(r))
}

/// The files that the rules of a package are written out as.
pub fn output_files(package: &RulesPackage) -> (files: Vec<OutputFile>)
    ensures
        file_views(files@) == files_of(package@.rules),
{
    let mut files: Vec<OutputFile> = Vec::new();
    let ghost all = rule_views(package.rules@);
    let mut i: usize = 0;
    while i < package.rules.len()
        invariant
            i <= package.rules.len(),
            all == rule_views(package.rules@),
            file_views(files@) =~= files_of(all.take(i as int)),
        decreases package.rules.len() - i,
    {
        let rule = &package.rules[i];
        let file = OutputFile {
            category: rule.metadata.category.clone(),
            filename: rule.metadata.filename.clone(),
            content: rule.yaml_content.clone(),
        };
        let ghost before = files@;
        let ghost added = file@;
        files.push(file);
        proof {
            let done = all.take(i as int + 1);
            assert(done.drop_last() =~= all.take(i as int));
            assert(done.last() == rule@);
            assert(file_views(files@) =~= file_views(before).push(added));
            assert(files_of(done) =~= files_of(done.drop_last()).push(file_of(done.last())));
        }
        i += 1;
    }
    assert(all.take(i as int) =~= all);
    files
}

/// What unpacking hands back: the files to write, and the number of rules
/// that the header of the package declares.
#[derive(Debug, Clone, PartialEq, Eq)]
pub struct Unpacked {
    pub files: Vec<OutputFile>,
    pub rule_count: usize,
}

/// Unpacks the bytes of a package file into the files to write: one for each
/// rule, in order, each with the text that was packed.
pub fn unpack_rules(bytes: &[u8]) -> (r: Result<Unpacked, PackError>)
    ensures
        match r {
            Ok(unpacked) => {
                &&& package_in(bytes@) matches Ok(package)
                &&& file_views(unpacked.files@) == files_of(package.rules)
                &&& unpacked.rule_count == package.header.rule_count
            },
            Err(PackError::Codec(e)) => package_in(bytes@) == Err::<RulesPackageView, CodecError>(
                e,
            ),
            Err(_) => false,
        },
{
    match read_package(bytes) {
        Ok(package) => {
            let files = output_files(&package);
            Ok(Unpacked { files, rule_count: package.header.rule_count })
        },
        Err(error) => Err(error),
    }
}

/// What is shown of one rule.
#[derive(Debug, Clone, PartialEq, Eq)]
pub struct RuleSummary {
    pub id: String,
    pub name: String,
    pub risk: String,
}

pub struct RuleSummaryView {
    pub id: Seq<char>,
    pub name: Seq<char>,
    pub risk: Seq<char>,
}

impl View for RuleSummary {
    type V = RuleSummaryView;

    open spec fn view(&self) -> RuleSummaryView {
        RuleSummaryView { id: self.id@, name: self.name@, risk: self.risk@ }
    }
}

/// The views of a list of summaries, in order.
pub open spec fn summary_views(v: Seq<RuleSummary>) -> Seq<RuleSummaryView> {
    v.map_values(|s: RuleSummary| s@)
}

pub open spec fn summary_of(rule: SerializedRuleView) -> RuleSummaryView {
    RuleSummaryView { id: rule.metadata.id, name: rule.metadata.name, risk: rule.metadata.risk }
}

/// One summary for each rule, in the order of the rules.
pub open spec fn summaries_of(rules: Seq<SerializedRuleView>) -> Seq<RuleSummaryView> {
    rules.map_values(|r: SerializedRuleView| summary_of(r))
}

/// What is shown of a package file.
#[derive(Debug, Clone, PartialEq, Eq)]
pub struct PackageInfo {
    pub version: u32,
    pub created_at: u64,
    pub rule_count: usize,
    pub compression: String,
    pub categories: Vec<String>,
    /// The size of the file, in bytes.
    pub size: usize,
    pub rules: Vec<RuleSummary>,
}

pub struct PackageInfoView {
    pub version: u32,
    pub created_at: u64,
    pub rule_count: usize,
    pub compression: Seq<char>,
    pub categories: Seq<Seq<char>>,
    pub size: usize,
    pub rules: Seq<RuleSummaryView>,
}

impl View for PackageInfo {
    type V = PackageInfoView;

    open spec fn view(&self) -> PackageInfoView {
        PackageInfoView {
            version: self.version,
            created_at: self.created_at,
            rule_count: self.rule_count,
            compression: self.compression@,
            categories: texts(self.categories@),
            size: self.size,
            rules: summary_views(self.rules@),
        }
    }
}

/// What is shown of a package that was read from a file of `size` bytes: the
/// fields of its header as they stand, the size, and of each rule its `id`,
/// `name` and `risk`.
pub open spec fn info_of(package: RulesPackageView, size: usize) -> PackageInfoView {
    PackageInfoView {
        version: package.header.version,
        created_at: package.header.created_at,
        rule_count: package.header.rule_count,
        compression: package.header.compression,
        categories: package.header.categories,
        size,
        rules: summaries_of(package.rules),
    }
}

fn clone_texts(list: &Vec<String>) -> (r: Vec<String>)
    ensures
        texts(r@) == texts(list@),
{
    let mut copy: Vec<String> = Vec::new();
    let mut i: usize = 0;
    while i < list.len()
        invariant
            i <= list.len(),
            texts(copy@) =~= texts(list@).take(i as int),
        decreases list.len() - i,
    {
        let ghost before = copy@;
        let item = list[i].clone();
        copy.push(item);
        assert(texts(copy@) =~= texts(before).push(list@[i as int]@));
        i += 1;
    }
    assert(texts(list@).take(i as int) =~= texts(list@));
    copy
}

fn summaries(rules: &Vec<SerializedRule>) -> (r: Vec<RuleSummary>)
    ensures
        summary_views(r@) == summaries_of(rule_views(rules@)),
{
    let mut list: Vec<RuleSummary> = Vec::new();
    let ghost all = rule_views(rules@);
    let mut i: usize = 0;
    while i < rules.len()
        invariant
            i <= rules.len(),
            all == rule_views(rules@),
            summary_views(list@) =~= summaries_of(all.take(i as int)),
        decreases rules.len() - i,
    {
        let rule = &rules[i];
        let summary = RuleSummary {
            id: rule.metadata.id.clone(),
            name: rule.metadata.name.clone(),
            risk: rule.metadata.risk.clone(),
        };
        let ghost before = list@;
        let ghost added = summary@;
        list.push(summary);
        proof {
            let done = all.take(i as int + 1);
            assert(done.drop_last() =~= all.take(i as int));
            assert(done.last() == rule@);
            assert(summary_views(list@) =~= summary_views(before).push(added));
            assert(summaries_of(done) =~= summaries_of(done.drop_last()).push(
                summary_of(done.last()),
            ));
        }
        i += 1;
    }
    assert(all.take(i as int) =~= all);
    list
}

/// Reads the bytes of a package file and says what is shown of the package.
pub fn show_info(bytes: &[u8]) -> (r: Result<PackageInfo, PackError>)
    ensures
        match r {
            Ok(info) => {
                &&& package_in(bytes@) matches Ok(package)
                &&& info@ == info_of(package, bytes@.len() as usize)
            },
            Err(PackError::Codec(e)) => package_in(bytes@) == Err::<RulesPackageView, CodecError>(
                e,
            ),
            Err(_) => false,
        },
{
    match read_package(bytes) {
        Ok(package) => Ok(
            PackageInfo {
                version: package.header.version,
                created_at: package.header.created_at,
                rule_count: package.header.rule_count,
                compression: package.header.compression.clone(),
                categories: clone_texts(&package.header.categories),
                size: bytes.len(),
                rules: summaries(&package.rules),
            },
        ),
        Err(error) => Err(error),
    }
}

} // verus!
