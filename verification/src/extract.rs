//! The document extractor: from one structured document and the place it was
//! found at to the metadata of the rule and its two lists of matchers.
//!
//! Every lookup is tolerant. A field that is missing, or is not of the kind
//! that is asked for, gives the field's default and never an error.

use crate::document::{node_views, Node, NodeView};
use crate::location::SourceLocation;
use crate::model::{
    entry_views, opt_text, texts, RegistryEntry, RegistryEntryView, RuleMetadata, RuleMetadataView,
};
use vstd::prelude::*;

verus! {

// ---------------------------------------------------------------------------
// What is extracted

/// The string under `key`, if `doc` has that field and it is a string.
pub open spec fn text_field(doc: NodeView, key: Seq<char>) -> Option<Seq<char>> {
    match doc.field(key) {
        Some(value) => value.text(),
        None => None,
    }
}

pub open spec fn text_or(found: Option<Seq<char>>, default: Seq<char>) -> Seq<char> {
    match found {
        Some(t) => t,
        None => default,
    }
}

/// The items that are strings, in the order in which they stand.
pub open spec fn text_items(items: Seq<NodeView>) -> Seq<Seq<char>> {
    items.filter_map(|n: NodeView| n.text())
}

/// The string items of the list that `found` is; empty where there is no
/// value or the value is no list.
pub open spec fn text_list(found: Option<NodeView>) -> Seq<Seq<char>> {
    match found {
        Some(value) => match value.items() {
            Some(items) => text_items(items),
            None => Seq::empty(),
        },
        None => Seq::empty(),
    }
}

/// The metadata of the rule that `doc` describes. Category and file name are
/// those of the place where the document was found, whatever it holds.
pub open spec fn metadata_of(
    doc: NodeView,
    category: Seq<char>,
    filename: Seq<char>,
) -> RuleMetadataView {
    RuleMetadataView {
        id: text_or(text_field(doc, "id"@), ""@),
        name: text_or(text_field(doc, "name"@), ""@),
        risk: text_or(text_field(doc, "risk"@), "low"@),
        systeminfo: text_list(doc.field("systeminfo"@)),
        update: text_or(text_field(doc, "update"@), ""@),
        author: text_field(doc, "author"@),
        description: text_field(doc, "description"@),
        category,
        filename,
    }
}

/// The registry matcher that one item of `match.registry` declares.
pub open spec fn registry_entry_of(item: NodeView) -> RegistryEntryView {
    RegistryEntryView {
        path: text_or(text_field(item, "path"@), ""@),
        key: text_or(text_field(item, "key"@), "*"@),
        value: text_field(item, "value"@),
        value_data: text_field(item, "value_data"@),
        action: text_or(text_field(item, "action"@), "delete_key"@),
    }
}

/// One registry matcher for each item, in order.
pub open spec fn registry_entries_of(items: Seq<NodeView>) -> Seq<RegistryEntryView> {
    items.map_values(|n: NodeView| registry_entry_of(n))
}

/// The path matchers of `doc`: the string items of `match.path`.
pub open spec fn paths_of(doc: NodeView) -> Seq<Seq<char>> {
    match doc.field("match"@) {
        Some(section) => text_list(section.field("path"@)),
        None => Seq::empty(),
    }
}

/// The registry matchers of `doc`: one for each item of `match.registry`.
pub open spec fn registry_of(doc: NodeView) -> Seq<RegistryEntryView> {
    match doc.field("match"@) {
        Some(section) => match section.field("registry"@) {
            Some(value) => match value.items() {
                Some(items) => registry_entries_of(items),
                None => Seq::empty(),
            },
            None => Seq::empty(),
        },
        None => Seq::empty(),
    }
}

// ---------------------------------------------------------------------------
// Laws of extraction

/// A document without a string under `risk` has the risk `low`.
pub proof fn lemma_risk_defaults_to_low(doc: NodeView, category: Seq<char>, filename: Seq<char>)
    requires
        text_field(doc, "risk"@) is None,
    ensures
        metadata_of(doc, category, filename).risk == "low"@,
{
}

/// A registry item without a string under `action` has the action
/// `delete_key`, and one without a string under `key` has the key `*`.
pub proof fn lemma_registry_defaults(item: NodeView)
    ensures
        text_field(item, "action"@) is None ==> registry_entry_of(item).action == "delete_key"@,
        text_field(item, "key"@) is None ==> registry_entry_of(item).key == "*"@,
{
}

/// An item that is a string is kept, and one that is not is dropped.
pub proof fn lemma_text_items_one(item: NodeView)
    ensures
        text_items(seq![item]) == match item.text() {
            Some(t) => seq![t],
            None => Seq::<Seq<char>>::empty(),
        },
{
    let f = |n: NodeView| n.text();
    let one = seq![item];
    assert(one.drop_last() =~= Seq::<NodeView>::empty());
    assert(one.last() == item);
    assert(one.drop_last().filter_map(f) =~= Seq::<Seq<char>>::empty());
    assert(one.filter_map(f) =~= match item.text() {
        Some(t) => seq![t],
        None => Seq::<Seq<char>>::empty(),
    });
}

/// The strings kept from a list are those kept from its front followed by
/// those kept from its back: what is kept stays in the order it stood in.
pub proof fn lemma_text_items_in_order(front: Seq<NodeView>, back: Seq<NodeView>)
    ensures
        text_items(front + back) == text_items(front) + text_items(back),
    decreases back.len(),
{
    let f = |n: NodeView| n.text();
    if back.len() == 0 {
        assert(front + back =~= front);
        assert(text_items(front) + text_items(back) =~= text_items(front));
    } else {
        let all = front + back;
        assert(all.drop_last() =~= front + back.drop_last());
        assert(all.last() == back.last());
        lemma_text_items_in_order(front, back.drop_last());
        assert(text_items(all) =~= text_items(front) + text_items(back));
    }
}

/// Category and file name of the metadata are those of the place of the
/// document, whatever the document holds.
pub proof fn lemma_place_decides_category(doc: NodeView, category: Seq<char>, filename: Seq<char>)
    ensures
        metadata_of(doc, category, filename).category == category,
        metadata_of(doc, category, filename).filename == filename,
{
}

// ---------------------------------------------------------------------------
// Extraction

/// The view of a value that may be absent.
spec fn opt_node(found: Option<&Node>) -> Option<NodeView> {
    match found {
        Some(n) => Some(n@),
        None => None,
    }
}

fn text_field_of(doc: &Node, key: &str) -> (r: Option<String>)
    ensures
        opt_text(r) == text_field(doc@, key@),
{
    match doc.get(key) {
        Some(value) => match value.as_text() {
            Some(s) => Some(s.clone()),
            None => None,
        },
        None => None,
    }
}

fn text_or_default(found: Option<String>, default: &str) -> (r: String)
    ensures
        r@ == text_or(opt_text(found), default@),
{
    match found {
        Some(s) => s,
        None => default.to_owned(),
    }
}

fn text_items_of(items: &Vec<Node>) -> (r: Vec<String>)
    ensures
        texts(r@) == text_items(node_views(items@)),
{
    let mut kept: Vec<String> = Vec::new();
    let ghost all = node_views(items@);
    let mut i: usize = 0;
    assert(all.take(0) =~= Seq::<NodeView>::empty());
    assert(texts(kept@) =~= text_items(all.take(0)));
    while i < items.len()
        invariant
            i <= items.len(),
            all == node_views(items@),
            texts(kept@) == text_items(all.take(i as int)),
        decreases items.len() - i,
    {
        proof {
            all.lemma_filter_map_take_succ(|n: NodeView| n.text(), i as int);
            assert(all[i as int] == items@[i as int]@);
        }
        match items[i].as_text() {
            Some(s) => {
                let ghost before = kept@;
                kept.push(s.clone());
                assert(texts(kept@) =~= texts(before) + seq![s@]);
            },
            None => {},
        }
        i += 1;
    }
    assert(all.take(i as int) =~= all);
    kept
}

fn text_list_of(found: Option<&Node>) -> (r: Vec<String>)
    ensures
        texts(r@) == text_list(opt_node(found)),
{
    match found {
        Some(value) => match value.as_items() {
            Some(items) => text_items_of(items),
            None => {
                let none: Vec<String> = Vec::new();
                assert(texts(none@) =~= Seq::<Seq<char>>::empty());
                none
            },
        },
        None => {
            let none: Vec<String> = Vec::new();
            assert(texts(none@) =~= Seq::<Seq<char>>::empty());
            none
        },
    }
}

/// Extracts the metadata of the rule that `doc` describes and that was found
/// at `location`.
pub fn extract_metadata(location: &SourceLocation, doc: &Node) -> (m: RuleMetadata)
    ensures
        m@ == metadata_of(doc@, location.category@, location.filename@),
{
    let id = text_or_default(text_field_of(doc, "id"), "");
    let name = text_or_default(text_field_of(doc, "name"), "");
    let risk = text_or_default(text_field_of(doc, "risk"), "low");
    let systeminfo = text_list_of(doc.get("systeminfo"));
    let update = text_or_default(text_field_of(doc, "update"), "");
    let author = text_field_of(doc, "author");
    let description = text_field_of(doc, "description");
    RuleMetadata {
        id,
        name,
        risk,
        systeminfo,
        update,
        author,
        description,
        category: location.category.clone(),
        filename: location.filename.clone(),
    }
}

fn registry_entry_from(item: &Node) -> (e: RegistryEntry)
    ensures
        e@ == registry_entry_of(item@),
{
    let path = text_or_default(text_field_of(item, "path"), "");
    let key = text_or_default(text_field_of(item, "key"), "*");
    let value = text_field_of(item, "value");
    let value_data = text_field_of(item, "value_data");
    let action = text_or_default(text_field_of(item, "action"), "delete_key");
    RegistryEntry { path, key, value, value_data, action }
}

fn registry_entries_from(items: &Vec<Node>) -> (r: Vec<RegistryEntry>)
    ensures
        entry_views(r@) == registry_entries_of(node_views(items@)),
{
    let mut entries: Vec<RegistryEntry> = Vec::new();
    let mut i: usize = 0;
    while i < items.len()
        invariant
            i <= items.len(),
            entry_views(entries@) =~= registry_entries_of(node_views(items@).take(i as int)),
        decreases items.len() - i,
    {
        let entry = registry_entry_from(&items[i]);
        let ghost before = entries@;
        let ghost added = entry@;
        entries.push(entry);
        proof {
            let done = node_views(items@).take(i as int + 1);
            assert(done.drop_last() =~= node_views(items@).take(i as int));
            assert(done.last() == items@[i as int]@);
            assert(entry_views(entries@) =~= entry_views(before).push(added));
            assert(registry_entries_of(done) =~= registry_entries_of(done.drop_last()).push(
                registry_entry_of(done.last()),
            ));
        }
        i += 1;
    }
    assert(node_views(items@).take(i as int) =~= node_views(items@));
    entries
}

/// Extracts the matchers of the rule that `doc` describes: the path matchers,
/// then the registry matchers.
pub fn extract_matches(doc: &Node) -> (r: (Vec<String>, Vec<RegistryEntry>))
    ensures
        texts(r.0@) == paths_of(doc@),
        entry_views(r.1@) == registry_of(doc@),
{
    let mut paths: Vec<String> = Vec::new();
    let mut registry: Vec<RegistryEntry> = Vec::new();
    assert(texts(paths@) =~= Seq::<Seq<char>>::empty());
    assert(entry_views(registry@) =~= Seq::<RegistryEntryView>::empty());
    match doc.get("match") {
        Some(section) => {
            paths = text_list_of(section.get("path"));
            match section.get("registry") {
                Some(value) => match value.as_items() {
                    Some(items) => {
                        registry = registry_entries_from(items);
                    },
                    None => {},
                },
                None => {},
            }
        },
        None => {},
    }
    (paths, registry)
}

} // verus!
