//! Writing a package as bytes.

use crate::model::{
    entry_views, opt_text, rule_views, texts, RegistryEntry, RuleMetadata, RulesPackage,
    RulesPackageHeader, RulesPackageView, SerializedRule,
};
use crate::round_trip::{
    entries_fit, entry_fits, header_fits, lemma_decode_encode, metadata_fits, opt_text_fits,
    package_fits, rule_fits, rules_fit, text_fits, texts_fit,
};
use crate::wire::{
    decoding, encoding, wire_entries, wire_entry, wire_entry_run, wire_header, wire_metadata,
    wire_opt_text, wire_rule, wire_rule_run, wire_rules, wire_text, wire_text_run, wire_texts,
    wire_u32, wire_u64, CodecError,
};
use vstd::bytes::*;
use vstd::prelude::*;

verus! {

fn put_bytes(out: &mut Vec<u8>, bytes: &[u8])
    ensures
        final(out)@ == old(out)@ + bytes@,
{
    let mut i: usize = 0;
    while i < bytes.len()
        invariant
            i <= bytes.len(),
            out@ == old(out)@ + bytes@.take(i as int),
        decreases bytes.len() - i,
    {
        out.push(bytes[i]);
        i += 1;
        assert(bytes@.take(i as int) =~= bytes@.take(i as int - 1).push(bytes@[i as int - 1]));
    }
    assert(bytes@.take(i as int) =~= bytes@);
}

fn put_u32(out: &mut Vec<u8>, x: u32)
    ensures
        final(out)@ == old(out)@ + wire_u32(x),
{
    let b = u32_to_le_bytes(x);
    put_bytes(out, b.as_slice());
}

fn put_u64(out: &mut Vec<u8>, x: u64)
    ensures
        final(out)@ == old(out)@ + wire_u64(x),
{
    let b = u64_to_le_bytes(x);
    put_bytes(out, b.as_slice());
}

fn put_text(out: &mut Vec<u8>, s: &str)
    ensures
        final(out)@ == old(out)@ + wire_text(s@),
        text_fits(s@),
{
    let b = s.as_bytes();
    put_u64(out, b.len() as u64);
    put_bytes(out, b);
    assert(out@ =~= old(out)@ + wire_text(s@));
}

fn put_opt_text(out: &mut Vec<u8>, o: &Option<String>)
    ensures
        final(out)@ == old(out)@ + wire_opt_text(opt_text(*o)),
        opt_text_fits(opt_text(*o)),
{
    match o {
        None => {
            out.push(0u8);
            assert(out@ =~= old(out)@ + seq![0u8]);
        },
        Some(s) => {
            out.push(1u8);
            put_text(out, s.as_str());
            assert(out@ =~= old(out)@ + (seq![1u8] + wire_text(s@)));
        },
    }
}

fn put_texts(out: &mut Vec<u8>, v: &Vec<String>)
    ensures
        final(out)@ == old(out)@ + wire_texts(texts(v@)),
        texts_fit(texts(v@)),
{
    put_u64(out, v.len() as u64);
    let ghost start = out@;
    let mut i: usize = 0;
    assert(texts(v@).take(0) =~= Seq::empty());
    assert(start + wire_text_run(texts(v@).take(0)) =~= start);
    while i < v.len()
        invariant
            i <= v.len(),
            out@ == start + wire_text_run(texts(v@).take(i as int)),
            forall|j: int| 0 <= j < i ==> text_fits(#[trigger] texts(v@)[j]),
        decreases v.len() - i,
    {
        put_text(out, v[i].as_str());
        proof {
            let done = texts(v@).take(i as int + 1);
            assert(done.drop_last() =~= texts(v@).take(i as int));
            assert(done.last() == v@[i as int]@);
            assert(out@ =~= start + wire_text_run(done));
        }
        i += 1;
    }
    assert(texts(v@).take(i as int) =~= texts(v@));
    assert(out@ =~= old(out)@ + wire_texts(texts(v@)));
}

fn put_entry(out: &mut Vec<u8>, e: &RegistryEntry)
    ensures
        final(out)@ == old(out)@ + wire_entry(e@),
        entry_fits(e@),
{
    reveal(wire_entry);
    put_text(out, e.path.as_str());
    put_text(out, e.key.as_str());
    put_opt_text(out, &e.value);
    put_opt_text(out, &e.value_data);
    put_text(out, e.action.as_str());
    assert(out@ =~= old(out)@ + wire_entry(e@));
}

fn put_entries(out: &mut Vec<u8>, v: &Vec<RegistryEntry>)
    ensures
        final(out)@ == old(out)@ + wire_entries(entry_views(v@)),
        entries_fit(entry_views(v@)),
{
    put_u64(out, v.len() as u64);
    let ghost start = out@;
    let mut i: usize = 0;
    assert(entry_views(v@).take(0) =~= Seq::empty());
    assert(start + wire_entry_run(entry_views(v@).take(0)) =~= start);
    while i < v.len()
        invariant
            i <= v.len(),
            out@ == start + wire_entry_run(entry_views(v@).take(i as int)),
            forall|j: int| 0 <= j < i ==> entry_fits(#[trigger] entry_views(v@)[j]),
        decreases v.len() - i,
    {
        put_entry(out, &v[i]);
        proof {
            let done = entry_views(v@).take(i as int + 1);
            assert(done.drop_last() =~= entry_views(v@).take(i as int));
            assert(done.last() == v@[i as int]@);
            assert(out@ =~= start + wire_entry_run(done));
        }
        i += 1;
    }
    assert(entry_views(v@).take(i as int) =~= entry_views(v@));
    assert(out@ =~= old(out)@ + wire_entries(entry_views(v@)));
}

fn put_metadata(out: &mut Vec<u8>, m: &RuleMetadata)
    ensures
        final(out)@ == old(out)@ + wire_metadata(m@),
        metadata_fits(m@),
{
    reveal(wire_metadata);
    put_text(out, m.id.as_str());
    put_text(out, m.name.as_str());
    put_text(out, m.risk.as_str());
    put_texts(out, &m.systeminfo);
    put_text(out, m.update.as_str());
    put_opt_text(out, &m.author);
    put_opt_text(out, &m.description);
    put_text(out, m.category.as_str());
    put_text(out, m.filename.as_str());
    assert(out@ =~= old(out)@ + wire_metadata(m@));
}

fn put_rule(out: &mut Vec<u8>, r: &SerializedRule)
    ensures
        final(out)@ == old(out)@ + wire_rule(r@),
        rule_fits(r@),
{
    reveal(wire_rule);
    put_metadata(out, &r.metadata);
    put_text(out, r.yaml_content.as_str());
    put_texts(out, &r.paths);
    put_entries(out, &r.registry_entries);
    assert(out@ =~= old(out)@ + wire_rule(r@));
}

fn put_rules(out: &mut Vec<u8>, v: &Vec<SerializedRule>)
    ensures
        final(out)@ == old(out)@ + wire_rules(rule_views(v@)),
        rules_fit(rule_views(v@)),
{
    put_u64(out, v.len() as u64);
    let ghost start = out@;
    let mut i: usize = 0;
    assert(rule_views(v@).take(0) =~= Seq::empty());
    assert(start + wire_rule_run(rule_views(v@).take(0)) =~= start);
    while i < v.len()
        invariant
            i <= v.len(),
            out@ == start + wire_rule_run(rule_views(v@).take(i as int)),
            forall|j: int| 0 <= j < i ==> rule_fits(#[trigger] rule_views(v@)[j]),
        decreases v.len() - i,
    {
        put_rule(out, &v[i]);
        proof {
            let done = rule_views(v@).take(i as int + 1);
            assert(done.drop_last() =~= rule_views(v@).take(i as int));
            assert(done.last() == v@[i as int]@);
            assert(out@ =~= start + wire_rule_run(done));
        }
        i += 1;
    }
    assert(rule_views(v@).take(i as int) =~= rule_views(v@));
    assert(out@ =~= old(out)@ + wire_rules(rule_views(v@)));
}

fn put_header(out: &mut Vec<u8>, h: &RulesPackageHeader)
    ensures
        final(out)@ == old(out)@ + wire_header(h@),
        header_fits(h@),
{
    reveal(wire_header);
    put_u32(out, h.version);
    put_u64(out, h.created_at);
    put_u64(out, h.rule_count as u64);
    put_text(out, h.compression.as_str());
    put_texts(out, &h.categories);
    assert(out@ =~= old(out)@ + wire_header(h@));
}

/// Encodes a package. The bytes are those of the layout, every length of the
/// package fits the layout, and decoding the bytes gives the package back.
pub fn encode(package: &RulesPackage) -> (out: Vec<u8>)
    ensures
        out@ == encoding(package@),
        package_fits(package@),
        decoding(out@) == Ok::<RulesPackageView, CodecError>(package@),
{
    let mut out: Vec<u8> = Vec::new();
    put_header(&mut out, &package.header);
    put_rules(&mut out, &package.rules);
    assert(out@ =~= encoding(package@));
    proof {
        lemma_decode_encode(package@, Seq::empty());
    }
    out
}

} // verus!
