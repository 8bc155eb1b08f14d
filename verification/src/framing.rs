//! How decoding treats the end of its input: bytes behind a package are not
//! looked at, and a package that is cut short is never taken for one.

use crate::model::RulesPackageView;
use crate::round_trip::{lemma_header_round_trip, lemma_rules_round_trip, package_fits};
use crate::wire::{
    decoding, encoding, read_count, read_entries, read_entry, read_entry_run, read_header,
    read_metadata, read_opt_text, read_rule, read_rule_run, read_rules, read_text, read_text_run,
    read_texts, read_u32, read_u64, wire_header, wire_rules, Parse,
};
use vstd::prelude::*;

verus! {

/// The outcome of a read, had `more` bytes stood behind the input.
pub open spec fn extended<T>(r: Parse<T>, more: Seq<u8>) -> Parse<T> {
    match r {
        Ok((value, rest)) => Ok((value, rest + more)),
        Err(e) => Err(e),
    }
}

proof fn lemma_u32_extends(s: Seq<u8>, more: Seq<u8>)
    requires
        read_u32(s) is Ok,
    ensures
        read_u32(s + more) == extended(read_u32(s), more),
{
    assert((s + more).take(4) =~= s.take(4));
    assert((s + more).skip(4) =~= s.skip(4) + more);
}

proof fn lemma_u64_extends(s: Seq<u8>, more: Seq<u8>)
    requires
        read_u64(s) is Ok,
    ensures
        read_u64(s + more) == extended(read_u64(s), more),
{
    assert((s + more).take(8) =~= s.take(8));
    assert((s + more).skip(8) =~= s.skip(8) + more);
}

proof fn lemma_count_extends(s: Seq<u8>, more: Seq<u8>)
    requires
        read_count(s) is Ok,
    ensures
        read_count(s + more) == extended(read_count(s), more),
{
    reveal(read_count);
    lemma_u64_extends(s, more);
}

proof fn lemma_text_extends(s: Seq<u8>, more: Seq<u8>)
    requires
        read_text(s) is Ok,
    ensures
        read_text(s + more) == extended(read_text(s), more),
{
    reveal(read_text);
    lemma_u64_extends(s, more);
    let (n, rest) = read_u64(s).unwrap();
    assert((rest + more).take(n as int) =~= rest.take(n as int));
    assert((rest + more).skip(n as int) =~= rest.skip(n as int) + more);
}

proof fn lemma_opt_text_extends(s: Seq<u8>, more: Seq<u8>)
    requires
        read_opt_text(s) is Ok,
    ensures
        read_opt_text(s + more) == extended(read_opt_text(s), more),
{
    reveal(read_opt_text);
    assert((s + more)[0] == s[0]);
    assert((s + more).skip(1) =~= s.skip(1) + more);
    if s[0] == 1 {
        lemma_text_extends(s.skip(1), more);
    }
}

proof fn lemma_text_run_extends(s: Seq<u8>, count: nat, more: Seq<u8>)
    requires
        read_text_run(s, count) is Ok,
    ensures
        read_text_run(s + more, count) == extended(read_text_run(s, count), more),
    decreases count,
{
    if count == 0 {
    } else {
        lemma_text_run_extends(s, (count - 1) as nat, more);
        lemma_text_extends(read_text_run(s, (count - 1) as nat).unwrap().1, more);
    }
}

proof fn lemma_texts_extends(s: Seq<u8>, more: Seq<u8>)
    requires
        read_texts(s) is Ok,
    ensures
        read_texts(s + more) == extended(read_texts(s), more),
{
    reveal(read_texts);
    lemma_u64_extends(s, more);
    let (n, rest) = read_u64(s).unwrap();
    lemma_text_run_extends(rest, n as nat, more);
}

proof fn lemma_entry_extends(s: Seq<u8>, more: Seq<u8>)
    requires
        read_entry(s) is Ok,
    ensures
        read_entry(s + more) == extended(read_entry(s), more),
{
    reveal(read_entry);
    lemma_text_extends(s, more);
    let s1 = read_text(s).unwrap().1;
    lemma_text_extends(s1, more);
    let s2 = read_text(s1).unwrap().1;
    lemma_opt_text_extends(s2, more);
    let s3 = read_opt_text(s2).unwrap().1;
    lemma_opt_text_extends(s3, more);
    let s4 = read_opt_text(s3).unwrap().1;
    lemma_text_extends(s4, more);
}

proof fn lemma_entry_run_extends(s: Seq<u8>, count: nat, more: Seq<u8>)
    requires
        read_entry_run(s, count) is Ok,
    ensures
        read_entry_run(s + more, count) == extended(read_entry_run(s, count), more),
    decreases count,
{
    if count == 0 {
    } else {
        lemma_entry_run_extends(s, (count - 1) as nat, more);
        lemma_entry_extends(read_entry_run(s, (count - 1) as nat).unwrap().1, more);
    }
}

proof fn lemma_entries_extends(s: Seq<u8>, more: Seq<u8>)
    requires
        read_entries(s) is Ok,
    ensures
        read_entries(s + more) == extended(read_entries(s), more),
{
    reveal(read_entries);
    lemma_u64_extends(s, more);
    let (n, rest) = read_u64(s).unwrap();
    lemma_entry_run_extends(rest, n as nat, more);
}

proof fn lemma_metadata_extends(s: Seq<u8>, more: Seq<u8>)
    requires
        read_metadata(s) is Ok,
    ensures
        read_metadata(s + more) == extended(read_metadata(s), more),
{
    reveal(read_metadata);
    lemma_text_extends(s, more);
    let s1 = read_text(s).unwrap().1;
    lemma_text_extends(s1, more);
    let s2 = read_text(s1).unwrap().1;
    lemma_text_extends(s2, more);
    let s3 = read_text(s2).unwrap().1;
    lemma_texts_extends(s3, more);
    let s4 = read_texts(s3).unwrap().1;
    lemma_text_extends(s4, more);
    let s5 = read_text(s4).unwrap().1;
    lemma_opt_text_extends(s5, more);
    let s6 = read_opt_text(s5).unwrap().1;
    lemma_opt_text_extends(s6, more);
    let s7 = read_opt_text(s6).unwrap().1;
    lemma_text_extends(s7, more);
    let s8 = read_text(s7).unwrap().1;
    lemma_text_extends(s8, more);
}

proof fn lemma_rule_extends(s: Seq<u8>, more: Seq<u8>)
    requires
        read_rule(s) is Ok,
    ensures
        read_rule(s + more) == extended(read_rule(s), more),
{
    reveal(read_rule);
    lemma_metadata_extends(s, more);
    let s1 = read_metadata(s).unwrap().1;
    lemma_text_extends(s1, more);
    let s2 = read_text(s1).unwrap().1;
    lemma_texts_extends(s2, more);
    let s3 = read_texts(s2).unwrap().1;
    lemma_entries_extends(s3, more);
}

proof fn lemma_rule_run_extends(s: Seq<u8>, count: nat, more: Seq<u8>)
    requires
        read_rule_run(s, count) is Ok,
    ensures
        read_rule_run(s + more, count) == extended(read_rule_run(s, count), more),
    decreases count,
{
    if count == 0 {
    } else {
        lemma_rule_run_extends(s, (count - 1) as nat, more);
        lemma_rule_extends(read_rule_run(s, (count - 1) as nat).unwrap().1, more);
    }
}

proof fn lemma_rules_extends(s: Seq<u8>, more: Seq<u8>)
    requires
        read_rules(s) is Ok,
    ensures
        read_rules(s + more) == extended(read_rules(s), more),
{
    reveal(read_rules);
    lemma_u64_extends(s, more);
    let (n, rest) = read_u64(s).unwrap();
    lemma_rule_run_extends(rest, n as nat, more);
}

proof fn lemma_header_extends(s: Seq<u8>, more: Seq<u8>)
    requires
        read_header(s) is Ok,
    ensures
        read_header(s + more) == extended(read_header(s), more),
{
    reveal(read_header);
    lemma_u32_extends(s, more);
    let s1 = read_u32(s).unwrap().1;
    lemma_u64_extends(s1, more);
    let s2 = read_u64(s1).unwrap().1;
    lemma_count_extends(s2, more);
    let s3 = read_count(s2).unwrap().1;
    lemma_text_extends(s3, more);
    let s4 = read_text(s3).unwrap().1;
    lemma_texts_extends(s4, more);
}

/// Bytes behind a package are not looked at: what decodes to a package still
/// decodes to it when any bytes follow.
pub proof fn lemma_trailing_bytes_ignored(s: Seq<u8>, more: Seq<u8>)
    requires
        decoding(s) is Ok,
    ensures
        decoding(s + more) == decoding(s),
{
    lemma_header_extends(s, more);
    let s1 = read_header(s).unwrap().1;
    lemma_rules_extends(s1, more);
}

/// A package that is cut short is no package: no proper prefix of the
/// encoding of a package decodes.
pub proof fn lemma_truncated_fails(p: RulesPackageView, k: int)
    requires
        package_fits(p),
        0 <= k < encoding(p).len(),
    ensures
        decoding(encoding(p).take(k)) is Err,
{
    let whole = encoding(p);
    let kept = whole.take(k);
    let cut = whole.skip(k);
    if decoding(kept) is Ok {
        assert(kept + cut =~= whole);
        lemma_header_extends(kept, cut);
        let s1 = read_header(kept).unwrap().1;
        lemma_rules_extends(s1, cut);
        let left = read_rules(s1).unwrap().1;
        // Read from the whole encoding, the rules leave `left + cut` behind ...
        assert(read_header(whole) == extended(read_header(kept), cut));
        assert(read_rules(s1 + cut) == extended(read_rules(s1), cut));
        // ... and by the round trip they leave nothing.
        let none = Seq::<u8>::empty();
        assert(whole =~= wire_header(p.header) + (wire_rules(p.rules) + none));
        lemma_header_round_trip(p.header, wire_rules(p.rules) + none);
        lemma_rules_round_trip(p.rules, none);
        assert(s1 + cut == wire_rules(p.rules) + none);
        assert(left + cut == none);
        assert((left + cut).len() == left.len() + cut.len());
        assert(false);
    }
}

} // verus!
