//! The data model of a rule package and its mathematical views.

use vstd::prelude::*;

verus! {

/// The character sequences of a list of strings, in order.
pub open spec fn texts(v: Seq<String>) -> Seq<Seq<char>> {
    v.map_values(|s: String| s@)
}

/// The character sequence of an optional string.
pub open spec fn opt_text(o: Option<String>) -> Option<Seq<char>> {
    match o {
        Some(s) => Some(s@),
        None => None,
    }
}

/// Descriptive fields of one rule document.
#[derive(Debug, Clone, PartialEq, Eq)]
pub struct RuleMetadata {
    pub id: String,
    pub name: String,
    pub risk: String,
    pub systeminfo: Vec<String>,
    pub update: String,
    pub author: Option<String>,
    pub description: Option<String>,
    pub category: String,
    pub filename: String,
}

pub struct RuleMetadataView {
    pub id: Seq<char>,
    pub name: Seq<char>,
    pub risk: Seq<char>,
    pub systeminfo: Seq<Seq<char>>,
    pub update: Seq<char>,
    pub author: Option<Seq<char>>,
    pub description: Option<Seq<char>>,
    pub category: Seq<char>,
    pub filename: Seq<char>,
}

impl View for RuleMetadata {
    type V = RuleMetadataView;

    open spec fn view(&self) -> RuleMetadataView {
        RuleMetadataView {
            id: self.id@,
            name: self.name@,
            risk: self.risk@,
            systeminfo: texts(self.systeminfo@),
            update: self.update@,
            author: opt_text(self.author),
            description: opt_text(self.description),
            category: self.category@,
            filename: self.filename@,
        }
    }
}

/// One registry-style key matcher of a rule.
#[derive(Debug, Clone, PartialEq, Eq)]
pub struct RegistryEntry {
    pub path: String,
    pub key: String,
    pub value: Option<String>,
    pub value_data: Option<String>,
    pub action: String,
}

pub struct RegistryEntryView {
    pub path: Seq<char>,
    pub key: Seq<char>,
    pub value: Option<Seq<char>>,
    pub value_data: Option<Seq<char>>,
    pub action: Seq<char>,
}

impl View for RegistryEntry {
    type V = RegistryEntryView;

    open spec fn view(&self) -> RegistryEntryView {
        RegistryEntryView {
            path: self.path@,
            key: self.key@,
            value: opt_text(self.value),
            value_data: opt_text(self.value_data),
            action: self.action@,
        }
    }
}

/// The views of a list of registry entries, in order.
pub open spec fn entry_views(v: Seq<RegistryEntry>) -> Seq<RegistryEntryView> {
    v.map_values(|e: RegistryEntry| e@)
}

/// One rule as stored in a package: derived fields beside the verbatim text
/// of the document they were derived from.
#[derive(Debug, Clone, PartialEq, Eq)]
pub struct SerializedRule {
    pub metadata: RuleMetadata,
    pub yaml_content: String,
    pub paths: Vec<String>,
    pub registry_entries: Vec<RegistryEntry>,
}

pub struct SerializedRuleView {
    pub metadata: RuleMetadataView,
    pub yaml_content: Seq<char>,
    pub paths: Seq<Seq<char>>,
    pub registry_entries: Seq<RegistryEntryView>,
}

impl View for SerializedRule {
    type V = SerializedRuleView;

    open spec fn view(&self) -> SerializedRuleView {
        SerializedRuleView {
            metadata: self.metadata@,
            yaml_content: self.yaml_content@,
            paths: texts(self.paths@),
            registry_entries: entry_views(self.registry_entries@),
        }
    }
}

/// The views of a list of rules, in order.
pub open spec fn rule_views(v: Seq<SerializedRule>) -> Seq<SerializedRuleView> {
    v.map_values(|r: SerializedRule| r@)
}

/// The header of a package.
#[derive(Debug, Clone, PartialEq, Eq)]
pub struct RulesPackageHeader {
    pub version: u32,
    pub created_at: u64,
    pub rule_count: usize,
    pub compression: String,
    pub categories: Vec<String>,
}

pub struct RulesPackageHeaderView {
    pub version: u32,
    pub created_at: u64,
    pub rule_count: usize,
    pub compression: Seq<char>,
    pub categories: Seq<Seq<char>>,
}

impl View for RulesPackageHeader {
    type V = RulesPackageHeaderView;

    open spec fn view(&self) -> RulesPackageHeaderView {
        RulesPackageHeaderView {
            version: self.version,
            created_at: self.created_at,
            rule_count: self.rule_count,
            compression: self.compression@,
            categories: texts(self.categories@),
        }
    }
}

/// A package: a header and the rules in the order in which they were found.
#[derive(Debug, Clone, PartialEq, Eq)]
pub struct RulesPackage {
    pub header: RulesPackageHeader,
    pub rules: Vec<SerializedRule>,
}

pub struct RulesPackageView {
    pub header: RulesPackageHeaderView,
    pub rules: Seq<SerializedRuleView>,
}

impl View for RulesPackage {
    type V = RulesPackageView;

    open spec fn view(&self) -> RulesPackageView {
        RulesPackageView { header: self.header@, rules: rule_views(self.rules@) }
    }
}

} // verus!
