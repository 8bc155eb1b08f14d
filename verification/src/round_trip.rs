//! Reading is the inverse of writing: every shape of the layout, written and
//! followed by any bytes, is read back as the value that was written, leaving
//! exactly the bytes that followed.

use crate::model::RegistryEntryView;
use crate::model::RuleMetadataView;
use crate::model::RulesPackageHeaderView;
use crate::model::RulesPackageView;
use crate::model::SerializedRuleView;
use crate::wire::{
    CodecError, decoding, encoding, read_count, read_entries, read_entry, read_entry_run, read_header, read_metadata, read_opt_text, read_rule, read_rule_run, read_rules, read_text, read_text_run, read_texts, read_u32, read_u64, wire_entries, wire_entry, wire_entry_run, wire_header, wire_metadata, wire_opt_text, wire_rule, wire_rule_run, wire_rules, wire_text, wire_text_run, wire_texts, wire_u32, wire_u64,
};
use vstd::bytes::*;
use vstd::prelude::*;
use vstd::utf8::*;

verus! {

// ---------------------------------------------------------------------------
// Values whose lengths can be written as a `u64`

pub open spec fn text_fits(t: Seq<char>) -> bool {
    encode_utf8(t).len() <= u64::MAX
}

pub open spec fn opt_text_fits(o: Option<Seq<char>>) -> bool {
    match o {
        Some(t) => text_fits(t),
        None => true,
    }
}

pub open spec fn texts_fit(v: Seq<Seq<char>>) -> bool {
    &&& v.len() <= u64::MAX
    &&& forall|i: int| 0 <= i < v.len() ==> text_fits(#[trigger] v[i])
}

pub open spec fn entry_fits(e: RegistryEntryView) -> bool {
    &&& text_fits(e.path)
    &&& text_fits(e.key)
    &&& opt_text_fits(e.value)
    &&& opt_text_fits(e.value_data)
    &&& text_fits(e.action)
}

pub open spec fn entries_fit(v: Seq<RegistryEntryView>) -> bool {
    &&& v.len() <= u64::MAX
    &&& forall|i: int| 0 <= i < v.len() ==> entry_fits(#[trigger] v[i])
}

pub open spec fn metadata_fits(m: RuleMetadataView) -> bool {
    &&& text_fits(m.id)
    &&& text_fits(m.name)
    &&& text_fits(m.risk)
    &&& texts_fit(m.systeminfo)
    &&& text_fits(m.update)
    &&& opt_text_fits(m.author)
    &&& opt_text_fits(m.description)
    &&& text_fits(m.category)
    &&& text_fits(m.filename)
}

pub open spec fn rule_fits(r: SerializedRuleView) -> bool {
    &&& metadata_fits(r.metadata)
    &&& text_fits(r.yaml_content)
    &&& texts_fit(r.paths)
    &&& entries_fit(r.registry_entries)
}

pub open spec fn rules_fit(v: Seq<SerializedRuleView>) -> bool {
    &&& v.len() <= u64::MAX
    &&& forall|i: int| 0 <= i < v.len() ==> rule_fits(#[trigger] v[i])
}

pub open spec fn header_fits(h: RulesPackageHeaderView) -> bool {
    &&& text_fits(h.compression)
    &&& texts_fit(h.categories)
}

/// Every length in the package can be written as a `u64`. This holds of the
/// view of every package in memory.
pub open spec fn package_fits(p: RulesPackageView) -> bool {
    &&& header_fits(p.header)
    &&& rules_fit(p.rules)
}

// ---------------------------------------------------------------------------
// Round trips, shape by shape

proof fn lemma_regroup(a: Seq<u8>, b: Seq<u8>, c: Seq<u8>)
    ensures
        (a + b) + c == a + (b + c),
{
    assert((a + b) + c =~= a + (b + c));
}

pub proof fn lemma_u32_round_trip(x: u32, rest: Seq<u8>)
    ensures
        read_u32(wire_u32(x) + rest) == Ok::<(u32, Seq<u8>), CodecError>((x, rest)),
{
    lemma_auto_spec_u32_to_from_le_bytes();
    let s = wire_u32(x) + rest;
    assert(s.take(4) =~= wire_u32(x));
    assert(s.skip(4) =~= rest);
}

pub proof fn lemma_u64_round_trip(x: u64, rest: Seq<u8>)
    ensures
        read_u64(wire_u64(x) + rest) == Ok::<(u64, Seq<u8>), CodecError>((x, rest)),
{
    lemma_auto_spec_u64_to_from_le_bytes();
    let s = wire_u64(x) + rest;
    assert(s.take(8) =~= wire_u64(x));
    assert(s.skip(8) =~= rest);
}

pub proof fn lemma_text_round_trip(t: Seq<char>, rest: Seq<u8>)
    requires
        text_fits(t),
    ensures
        read_text(wire_text(t) + rest) == Ok::<(Seq<char>, Seq<u8>), CodecError>((t, rest)),
{
    reveal(read_text);
    let b = encode_utf8(t);
    assert(wire_text(t) + rest =~= wire_u64(b.len() as u64) + (b + rest));
    lemma_u64_round_trip(b.len() as u64, b + rest);
    assert((b + rest).take(b.len() as int) =~= b);
    assert((b + rest).skip(b.len() as int) =~= rest);
    encode_utf8_valid_utf8(t);
    encode_utf8_decode_utf8(t);
}

pub proof fn lemma_opt_text_round_trip(o: Option<Seq<char>>, rest: Seq<u8>)
    requires
        opt_text_fits(o),
    ensures
        read_opt_text(wire_opt_text(o) + rest) == Ok::<(Option<Seq<char>>, Seq<u8>), CodecError>(
            (o, rest),
        ),
{
    reveal(read_opt_text);
    let s = wire_opt_text(o) + rest;
    match o {
        None => {
            assert(s.skip(1) =~= rest);
        },
        Some(t) => {
            assert(s.skip(1) =~= wire_text(t) + rest);
            lemma_text_round_trip(t, rest);
        },
    }
}

pub proof fn lemma_text_run_round_trip(v: Seq<Seq<char>>, rest: Seq<u8>)
    requires
        forall|i: int| 0 <= i < v.len() ==> text_fits(#[trigger] v[i]),
    ensures
        read_text_run(wire_text_run(v) + rest, v.len()) == Ok::<
            (Seq<Seq<char>>, Seq<u8>),
            CodecError,
        >((v, rest)),
    decreases v.len(),
{
    if v.len() == 0 {
        assert(wire_text_run(v) + rest =~= rest);
        assert(v =~= Seq::empty());
    } else {
        let front = v.drop_last();
        let tail = wire_text(v.last()) + rest;
        lemma_regroup(wire_text_run(front), wire_text(v.last()), rest);
        lemma_text_run_round_trip(front, tail);
        lemma_text_round_trip(v.last(), rest);
        assert(front.push(v.last()) =~= v);
    }
}

pub proof fn lemma_texts_round_trip(v: Seq<Seq<char>>, rest: Seq<u8>)
    requires
        texts_fit(v),
    ensures
        read_texts(wire_texts(v) + rest) == Ok::<(Seq<Seq<char>>, Seq<u8>), CodecError>((v, rest)),
{
    reveal(read_texts);
    assert(wire_texts(v) + rest =~= wire_u64(v.len() as u64) + (wire_text_run(v) + rest));
    lemma_u64_round_trip(v.len() as u64, wire_text_run(v) + rest);
    lemma_text_run_round_trip(v, rest);
}

pub proof fn lemma_entry_round_trip(e: RegistryEntryView, rest: Seq<u8>)
    requires
        entry_fits(e),
    ensures
        read_entry(wire_entry(e) + rest) == Ok::<(RegistryEntryView, Seq<u8>), CodecError>(
            (e, rest),
        ),
{
    reveal(wire_entry);
    reveal(read_entry);
    let s4 = wire_text(e.action) + rest;
    let s3 = wire_opt_text(e.value_data) + s4;
    let s2 = wire_opt_text(e.value) + s3;
    let s1 = wire_text(e.key) + s2;
    let a1 = wire_text(e.path);
    let a2 = a1 + wire_text(e.key);
    let a3 = a2 + wire_opt_text(e.value);
    let a4 = a3 + wire_opt_text(e.value_data);
    lemma_regroup(a4, wire_text(e.action), rest);
    lemma_regroup(a3, wire_opt_text(e.value_data), s4);
    lemma_regroup(a2, wire_opt_text(e.value), s3);
    lemma_regroup(a1, wire_text(e.key), s2);
    assert(wire_entry(e) + rest == wire_text(e.path) + s1);
    lemma_text_round_trip(e.path, s1);
    lemma_text_round_trip(e.key, s2);
    lemma_opt_text_round_trip(e.value, s3);
    lemma_opt_text_round_trip(e.value_data, s4);
    lemma_text_round_trip(e.action, rest);
}

pub proof fn lemma_entry_run_round_trip(v: Seq<RegistryEntryView>, rest: Seq<u8>)
    requires
        forall|i: int| 0 <= i < v.len() ==> entry_fits(#[trigger] v[i]),
    ensures
        read_entry_run(wire_entry_run(v) + rest, v.len()) == Ok::<
            (Seq<RegistryEntryView>, Seq<u8>),
            CodecError,
        >((v, rest)),
    decreases v.len(),
{
    if v.len() == 0 {
        assert(wire_entry_run(v) + rest =~= rest);
        assert(v =~= Seq::empty());
    } else {
        let front = v.drop_last();
        let tail = wire_entry(v.last()) + rest;
        lemma_regroup(wire_entry_run(front), wire_entry(v.last()), rest);
        lemma_entry_run_round_trip(front, tail);
        lemma_entry_round_trip(v.last(), rest);
        assert(front.push(v.last()) =~= v);
    }
}

pub proof fn lemma_entries_round_trip(v: Seq<RegistryEntryView>, rest: Seq<u8>)
    requires
        entries_fit(v),
    ensures
        read_entries(wire_entries(v) + rest) == Ok::<(Seq<RegistryEntryView>, Seq<u8>), CodecError>(
            (v, rest),
        ),
{
    reveal(read_entries);
    assert(wire_entries(v) + rest =~= wire_u64(v.len() as u64) + (wire_entry_run(v) + rest));
    lemma_u64_round_trip(v.len() as u64, wire_entry_run(v) + rest);
    lemma_entry_run_round_trip(v, rest);
}

pub proof fn lemma_metadata_round_trip(m: RuleMetadataView, rest: Seq<u8>)
    requires
        metadata_fits(m),
    ensures
        read_metadata(wire_metadata(m) + rest) == Ok::<(RuleMetadataView, Seq<u8>), CodecError>(
            (m, rest),
        ),
{
    reveal(wire_metadata);
    reveal(read_metadata);
    let s8 = wire_text(m.filename) + rest;
    let s7 = wire_text(m.category) + s8;
    let s6 = wire_opt_text(m.description) + s7;
    let s5 = wire_opt_text(m.author) + s6;
    let s4 = wire_text(m.update) + s5;
    let s3 = wire_texts(m.systeminfo) + s4;
    let s2 = wire_text(m.risk) + s3;
    let s1 = wire_text(m.name) + s2;
    let a1 = wire_text(m.id);
    let a2 = a1 + wire_text(m.name);
    let a3 = a2 + wire_text(m.risk);
    let a4 = a3 + wire_texts(m.systeminfo);
    let a5 = a4 + wire_text(m.update);
    let a6 = a5 + wire_opt_text(m.author);
    let a7 = a6 + wire_opt_text(m.description);
    let a8 = a7 + wire_text(m.category);
    lemma_regroup(a8, wire_text(m.filename), rest);
    lemma_regroup(a7, wire_text(m.category), s8);
    lemma_regroup(a6, wire_opt_text(m.description), s7);
    lemma_regroup(a5, wire_opt_text(m.author), s6);
    lemma_regroup(a4, wire_text(m.update), s5);
    lemma_regroup(a3, wire_texts(m.systeminfo), s4);
    lemma_regroup(a2, wire_text(m.risk), s3);
    lemma_regroup(a1, wire_text(m.name), s2);
    assert(wire_metadata(m) + rest == wire_text(m.id) + s1);
    lemma_text_round_trip(m.id, s1);
    lemma_text_round_trip(m.name, s2);
    lemma_text_round_trip(m.risk, s3);
    lemma_texts_round_trip(m.systeminfo, s4);
    lemma_text_round_trip(m.update, s5);
    lemma_opt_text_round_trip(m.author, s6);
    lemma_opt_text_round_trip(m.description, s7);
    lemma_text_round_trip(m.category, s8);
    lemma_text_round_trip(m.filename, rest);
}

pub proof fn lemma_rule_round_trip(r: SerializedRuleView, rest: Seq<u8>)
    requires
        rule_fits(r),
    ensures
        read_rule(wire_rule(r) + rest) == Ok::<(SerializedRuleView, Seq<u8>), CodecError>(
            (r, rest),
        ),
{
    reveal(wire_rule);
    reveal(read_rule);
    let s3 = wire_entries(r.registry_entries) + rest;
    let s2 = wire_texts(r.paths) + s3;
    let s1 = wire_text(r.yaml_content) + s2;
    let a1 = wire_metadata(r.metadata);
    let a2 = a1 + wire_text(r.yaml_content);
    let a3 = a2 + wire_texts(r.paths);
    lemma_regroup(a3, wire_entries(r.registry_entries), rest);
    lemma_regroup(a2, wire_texts(r.paths), s3);
    lemma_regroup(a1, wire_text(r.yaml_content), s2);
    assert(wire_rule(r) + rest == wire_metadata(r.metadata) + s1);
    lemma_metadata_round_trip(r.metadata, s1);
    lemma_text_round_trip(r.yaml_content, s2);
    lemma_texts_round_trip(r.paths, s3);
    lemma_entries_round_trip(r.registry_entries, rest);
}

pub proof fn lemma_rule_run_round_trip(v: Seq<SerializedRuleView>, rest: Seq<u8>)
    requires
        forall|i: int| 0 <= i < v.len() ==> rule_fits(#[trigger] v[i]),
    ensures
        read_rule_run(wire_rule_run(v) + rest, v.len()) == Ok::<
            (Seq<SerializedRuleView>, Seq<u8>),
            CodecError,
        >((v, rest)),
    decreases v.len(),
{
    if v.len() == 0 {
        assert(wire_rule_run(v) + rest =~= rest);
        assert(v =~= Seq::empty());
    } else {
        let front = v.drop_last();
        let tail = wire_rule(v.last()) + rest;
        lemma_regroup(wire_rule_run(front), wire_rule(v.last()), rest);
        lemma_rule_run_round_trip(front, tail);
        lemma_rule_round_trip(v.last(), rest);
        assert(front.push(v.last()) =~= v);
    }
}

pub proof fn lemma_rules_round_trip(v: Seq<SerializedRuleView>, rest: Seq<u8>)
    requires
        rules_fit(v),
    ensures
        read_rules(wire_rules(v) + rest) == Ok::<(Seq<SerializedRuleView>, Seq<u8>), CodecError>(
            (v, rest),
        ),
{
    reveal(read_rules);
    assert(wire_rules(v) + rest =~= wire_u64(v.len() as u64) + (wire_rule_run(v) + rest));
    lemma_u64_round_trip(v.len() as u64, wire_rule_run(v) + rest);
    lemma_rule_run_round_trip(v, rest);
}

pub proof fn lemma_header_round_trip(h: RulesPackageHeaderView, rest: Seq<u8>)
    requires
        header_fits(h),
    ensures
        read_header(wire_header(h) + rest) == Ok::<(RulesPackageHeaderView, Seq<u8>), CodecError>(
            (h, rest),
        ),
{
    reveal(wire_header);
    reveal(read_header);
    reveal(read_count);
    let s4 = wire_texts(h.categories) + rest;
    let s3 = wire_text(h.compression) + s4;
    let s2 = wire_u64(h.rule_count as u64) + s3;
    let s1 = wire_u64(h.created_at) + s2;
    let a1 = wire_u32(h.version);
    let a2 = a1 + wire_u64(h.created_at);
    let a3 = a2 + wire_u64(h.rule_count as u64);
    let a4 = a3 + wire_text(h.compression);
    lemma_regroup(a4, wire_texts(h.categories), rest);
    lemma_regroup(a3, wire_text(h.compression), s4);
    lemma_regroup(a2, wire_u64(h.rule_count as u64), s3);
    lemma_regroup(a1, wire_u64(h.created_at), s2);
    assert(wire_header(h) + rest == wire_u32(h.version) + s1);
    lemma_u32_round_trip(h.version, s1);
    lemma_u64_round_trip(h.created_at, s2);
    lemma_u64_round_trip(h.rule_count as u64, s3);
    lemma_text_round_trip(h.compression, s4);
    lemma_texts_round_trip(h.categories, rest);
}

/// Decoding inverts encoding: the encoding of a package, alone or followed by
/// any bytes, decodes to that package, field for field.
pub proof fn lemma_decode_encode(p: RulesPackageView, rest: Seq<u8>)
    requires
        package_fits(p),
    ensures
        decoding(encoding(p) + rest) == Ok::<RulesPackageView, CodecError>(p),
        decoding(encoding(p)) == Ok::<RulesPackageView, CodecError>(p),
{
    let s1 = wire_rules(p.rules) + rest;
    assert(encoding(p) + rest =~= wire_header(p.header) + s1);
    lemma_header_round_trip(p.header, s1);
    lemma_rules_round_trip(p.rules, rest);
    assert(encoding(p) =~= wire_header(p.header) + (wire_rules(p.rules) + Seq::<u8>::empty()));
    lemma_header_round_trip(p.header, wire_rules(p.rules) + Seq::<u8>::empty());
    lemma_rules_round_trip(p.rules, Seq::<u8>::empty());
}

} // verus!
