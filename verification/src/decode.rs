//! Reading a package from bytes.

use crate::model::{
    entry_views, opt_text, rule_views, texts, RegistryEntry, RegistryEntryView, RuleMetadata,
    RuleMetadataView, RulesPackage, RulesPackageHeader, RulesPackageHeaderView, RulesPackageView,
    SerializedRule, SerializedRuleView,
};
use crate::wire::{
    decoding, read_count, read_entries, read_entry, read_entry_run, read_header, read_metadata,
    read_opt_text, read_rule, read_rule_run, read_rules, read_text, read_text_run, read_texts,
    read_u32, read_u64, CodecError, Parse,
};
use vstd::bytes::*;
use vstd::prelude::*;
use vstd::slice::*;
use vstd::utf8::*;

verus! {

/// `String::from_utf8` of the standard library: the string that the bytes
/// spell when they are valid UTF-8, and nothing when they are not.
#[verifier::external_body]
fn utf8_string(bytes: Vec<u8>) -> (r: Option<String>)
    ensures
        match r {
            Some(s) => valid_utf8(bytes@) && s@ == decode_utf8(bytes@),
            None => !valid_utf8(bytes@),
        },
{
    String::from_utf8(bytes).ok()
}

/// A reader that stood at `pos` found `value` and stopped at `next`, as
/// `expected` says it should for the bytes from `pos` on.
spec fn reads<T>(
    bytes: Seq<u8>,
    pos: usize,
    expected: Parse<T>,
    value: T,
    next: usize,
) -> bool {
    &&& pos <= next <= bytes.len()
    &&& expected == Ok::<(T, Seq<u8>), CodecError>((value, bytes.skip(next as int)))
}

proof fn lemma_text_run_fails(s: Seq<u8>, k: nat, count: nat, e: CodecError)
    requires
        k <= count,
        read_text_run(s, k) == Err::<(Seq<Seq<char>>, Seq<u8>), CodecError>(e),
    ensures
        read_text_run(s, count) == Err::<(Seq<Seq<char>>, Seq<u8>), CodecError>(e),
    decreases count,
{
    if k < count {
        lemma_text_run_fails(s, k, (count - 1) as nat, e);
    }
}

proof fn lemma_entry_run_fails(s: Seq<u8>, k: nat, count: nat, e: CodecError)
    requires
        k <= count,
        read_entry_run(s, k) == Err::<(Seq<RegistryEntryView>, Seq<u8>), CodecError>(e),
    ensures
        read_entry_run(s, count) == Err::<(Seq<RegistryEntryView>, Seq<u8>), CodecError>(e),
    decreases count,
{
    if k < count {
        lemma_entry_run_fails(s, k, (count - 1) as nat, e);
    }
}

proof fn lemma_rule_run_fails(s: Seq<u8>, k: nat, count: nat, e: CodecError)
    requires
        k <= count,
        read_rule_run(s, k) == Err::<(Seq<SerializedRuleView>, Seq<u8>), CodecError>(e),
    ensures
        read_rule_run(s, count) == Err::<(Seq<SerializedRuleView>, Seq<u8>), CodecError>(e),
    decreases count,
{
    if k < count {
        lemma_rule_run_fails(s, k, (count - 1) as nat, e);
    }
}

fn take_u32(bytes: &[u8], pos: usize) -> (r: Result<(u32, usize), CodecError>)
    requires
        pos <= bytes.len(),
    ensures
        match r {
            Ok((x, next)) => reads(bytes@, pos, read_u32(bytes@.skip(pos as int)), x, next),
            Err(e) => read_u32(bytes@.skip(pos as int)) == Err::<(u32, Seq<u8>), CodecError>(e),
        },
{
    if bytes.len() - pos < 4 {
        return Err(CodecError::UnexpectedEnd);
    }
    let part = slice_subrange(bytes, pos, pos + 4);
    let x = u32_from_le_bytes(part);
    proof {
        assert(bytes@.skip(pos as int).take(4) =~= bytes@.subrange(pos as int, pos + 4));
        assert(bytes@.skip(pos as int).skip(4) =~= bytes@.skip(pos + 4));
    }
    Ok((x, pos + 4))
}

fn take_u64(bytes: &[u8], pos: usize) -> (r: Result<(u64, usize), CodecError>)
    requires
        pos <= bytes.len(),
    ensures
        match r {
            Ok((x, next)) => reads(bytes@, pos, read_u64(bytes@.skip(pos as int)), x, next),
            Err(e) => read_u64(bytes@.skip(pos as int)) == Err::<(u64, Seq<u8>), CodecError>(e),
        },
{
    if bytes.len() - pos < 8 {
        return Err(CodecError::UnexpectedEnd);
    }
    let part = slice_subrange(bytes, pos, pos + 8);
    let x = u64_from_le_bytes(part);
    proof {
        assert(bytes@.skip(pos as int).take(8) =~= bytes@.subrange(pos as int, pos + 8));
        assert(bytes@.skip(pos as int).skip(8) =~= bytes@.skip(pos + 8));
    }
    Ok((x, pos + 8))
}

fn take_count(bytes: &[u8], pos: usize) -> (r: Result<(usize, usize), CodecError>)
    requires
        pos <= bytes.len(),
    ensures
        match r {
            Ok((x, next)) => reads(bytes@, pos, read_count(bytes@.skip(pos as int)), x, next),
            Err(e) => read_count(bytes@.skip(pos as int)) == Err::<(usize, Seq<u8>), CodecError>(
                e,
            ),
        },
{
    reveal(read_count);
    let (n, next) = match take_u64(bytes, pos) {
        Ok(found) => found,
        Err(e) => {
            return Err(e);
        },
    };
    if n > usize::MAX as u64 {
        return Err(CodecError::CountOverflow);
    }
    Ok((n as usize, next))
}

fn take_text(bytes: &[u8], pos: usize) -> (r: Result<(String, usize), CodecError>)
    requires
        pos <= bytes.len(),
    ensures
        match r {
            Ok((s, next)) => reads(bytes@, pos, read_text(bytes@.skip(pos as int)), s@, next),
            Err(e) => read_text(bytes@.skip(pos as int)) == Err::<(Seq<char>, Seq<u8>), CodecError>(
                e,
            ),
        },
{
    reveal(read_text);
    let (n, start) = match take_u64(bytes, pos) {
        Ok(found) => found,
        Err(e) => {
            return Err(e);
        },
    };
    if ((bytes.len() - start) as u64) < n {
        return Err(CodecError::UnexpectedEnd);
    }
    let len = n as usize;
    let part = slice_subrange(bytes, start, start + len);
    let owned = slice_to_vec(part);
    proof {
        assert(bytes@.skip(start as int).take(n as int) =~= bytes@.subrange(
            start as int,
            start + len,
        ));
        assert(bytes@.skip(start as int).skip(n as int) =~= bytes@.skip(start + len));
    }
    match utf8_string(owned) {
        None => Err(CodecError::InvalidUtf8),
        Some(s) => Ok((s, start + len)),
    }
}

fn take_opt_text(bytes: &[u8], pos: usize) -> (r: Result<(Option<String>, usize), CodecError>)
    requires
        pos <= bytes.len(),
    ensures
        match r {
            Ok((o, next)) => reads(
                bytes@,
                pos,
                read_opt_text(bytes@.skip(pos as int)),
                opt_text(o),
                next,
            ),
            Err(e) => read_opt_text(bytes@.skip(pos as int)) == Err::<
                (Option<Seq<char>>, Seq<u8>),
                CodecError,
            >(e),
        },
{
    reveal(read_opt_text);
    if bytes.len() - pos < 1 {
        return Err(CodecError::UnexpectedEnd);
    }
    let tag = bytes[pos];
    proof {
        assert(bytes@.skip(pos as int)[0] == tag);
        assert(bytes@.skip(pos as int).skip(1) =~= bytes@.skip(pos + 1));
    }
    if tag == 0 {
        Ok((None, pos + 1))
    } else if tag == 1 {
        match take_text(bytes, pos + 1) {
            Err(e) => Err(e),
            Ok((s, next)) => Ok((Some(s), next)),
        }
    } else {
        Err(CodecError::InvalidOptionTag(tag))
    }
}

fn take_texts(bytes: &[u8], pos: usize) -> (r: Result<(Vec<String>, usize), CodecError>)
    requires
        pos <= bytes.len(),
    ensures
        match r {
            Ok((v, next)) => reads(bytes@, pos, read_texts(bytes@.skip(pos as int)), texts(v@), next),
            Err(e) => read_texts(bytes@.skip(pos as int)) == Err::<
                (Seq<Seq<char>>, Seq<u8>),
                CodecError,
            >(e),
        },
{
    reveal(read_texts);
    let (count, start) = match take_u64(bytes, pos) {
        Ok(found) => found,
        Err(e) => {
            return Err(e);
        },
    };
    let mut items: Vec<String> = Vec::new();
    let mut cur: usize = start;
    let mut i: u64 = 0;
    assert(texts(items@) =~= Seq::empty());
    while i < count
        invariant
            i <= count,
            pos <= start <= cur <= bytes.len(),
            read_u64(bytes@.skip(pos as int)) == Ok::<(u64, Seq<u8>), CodecError>(
                (count, bytes@.skip(start as int)),
            ),
            read_text_run(bytes@.skip(start as int), i as nat) == Ok::<
                (Seq<Seq<char>>, Seq<u8>),
                CodecError,
            >((texts(items@), bytes@.skip(cur as int))),
        decreases count - i,
    {
        match take_text(bytes, cur) {
            Err(e) => {
                proof {
                    reveal(read_texts);
                    assert(read_text_run(bytes@.skip(start as int), (i + 1) as nat) is Err);
                    lemma_text_run_fails(bytes@.skip(start as int), (i + 1) as nat, count as nat, e);
                }
                return Err(e);
            },
            Ok((s, next)) => {
                let ghost before = items@;
                items.push(s);
                assert(texts(items@) =~= texts(before).push(s@));
                cur = next;
            },
        }
        i += 1;
    }
    Ok((items, cur))
}

fn take_entry(bytes: &[u8], pos: usize) -> (r: Result<(RegistryEntry, usize), CodecError>)
    requires
        pos <= bytes.len(),
    ensures
        match r {
            Ok((x, next)) => reads(bytes@, pos, read_entry(bytes@.skip(pos as int)), x@, next),
            Err(e) => read_entry(bytes@.skip(pos as int)) == Err::<
                (RegistryEntryView, Seq<u8>),
                CodecError,
            >(e),
        },
{
    reveal(read_entry);
    let (path, at1) = match take_text(bytes, pos) {
        Ok(found) => found,
        Err(e) => {
            return Err(e);
        },
    };
    let (key, at2) = match take_text(bytes, at1) {
        Ok(found) => found,
        Err(e) => {
            return Err(e);
        },
    };
    let (value, at3) = match take_opt_text(bytes, at2) {
        Ok(found) => found,
        Err(e) => {
            return Err(e);
        },
    };
    let (value_data, at4) = match take_opt_text(bytes, at3) {
        Ok(found) => found,
        Err(e) => {
            return Err(e);
        },
    };
    let (action, at5) = match take_text(bytes, at4) {
        Ok(found) => found,
        Err(e) => {
            return Err(e);
        },
    };
    Ok((RegistryEntry { path, key, value, value_data, action }, at5))
}

fn take_entries(bytes: &[u8], pos: usize) -> (r: Result<(Vec<RegistryEntry>, usize), CodecError>)
    requires
        pos <= bytes.len(),
    ensures
        match r {
            Ok((v, next)) => reads(
                bytes@,
                pos,
                read_entries(bytes@.skip(pos as int)),
                entry_views(v@),
                next,
            ),
            Err(e) => read_entries(bytes@.skip(pos as int)) == Err::<
                (Seq<RegistryEntryView>, Seq<u8>),
                CodecError,
            >(e),
        },
{
    reveal(read_entries);
    let (count, start) = match take_u64(bytes, pos) {
        Ok(found) => found,
        Err(e) => {
            return Err(e);
        },
    };
    let mut items: Vec<RegistryEntry> = Vec::new();
    let mut cur: usize = start;
    let mut i: u64 = 0;
    assert(entry_views(items@) =~= Seq::empty());
    while i < count
        invariant
            i <= count,
            pos <= start <= cur <= bytes.len(),
            read_u64(bytes@.skip(pos as int)) == Ok::<(u64, Seq<u8>), CodecError>(
                (count, bytes@.skip(start as int)),
            ),
            read_entry_run(bytes@.skip(start as int), i as nat) == Ok::<
                (Seq<RegistryEntryView>, Seq<u8>),
                CodecError,
            >((entry_views(items@), bytes@.skip(cur as int))),
        decreases count - i,
    {
        match take_entry(bytes, cur) {
            Err(e) => {
                proof {
                    reveal(read_entries);
                    assert(read_entry_run(bytes@.skip(start as int), (i + 1) as nat) is Err);
                    lemma_entry_run_fails(
                        bytes@.skip(start as int),
                        (i + 1) as nat,
                        count as nat,
                        e,
                    );
                }
                return Err(e);
            },
            Ok((x, next)) => {
                let ghost before = items@;
                let ghost xv = x@;
                items.push(x);
                assert(entry_views(items@) =~= entry_views(before).push(xv));
                cur = next;
            },
        }
        i += 1;
    }
    Ok((items, cur))
}

fn take_metadata(bytes: &[u8], pos: usize) -> (r: Result<(RuleMetadata, usize), CodecError>)
    requires
        pos <= bytes.len(),
    ensures
        match r {
            Ok((x, next)) => reads(bytes@, pos, read_metadata(bytes@.skip(pos as int)), x@, next),
            Err(e) => read_metadata(bytes@.skip(pos as int)) == Err::<
                (RuleMetadataView, Seq<u8>),
                CodecError,
            >(e),
        },
{
    reveal(read_metadata);
    let (id, at1) = match take_text(bytes, pos) {
        Ok(found) => found,
        Err(e) => {
            return Err(e);
        },
    };
    let (name, at2) = match take_text(bytes, at1) {
        Ok(found) => found,
        Err(e) => {
            return Err(e);
        },
    };
    let (risk, at3) = match take_text(bytes, at2) {
        Ok(found) => found,
        Err(e) => {
            return Err(e);
        },
    };
    let (systeminfo, at4) = match take_texts(bytes, at3) {
        Ok(found) => found,
        Err(e) => {
            return Err(e);
        },
    };
    let (update, at5) = match take_text(bytes, at4) {
        Ok(found) => found,
        Err(e) => {
            return Err(e);
        },
    };
    let (author, at6) = match take_opt_text(bytes, at5) {
        Ok(found) => found,
        Err(e) => {
            return Err(e);
        },
    };
    let (description, at7) = match take_opt_text(bytes, at6) {
        Ok(found) => found,
        Err(e) => {
            return Err(e);
        },
    };
    let (category, at8) = match take_text(bytes, at7) {
        Ok(found) => found,
        Err(e) => {
            return Err(e);
        },
    };
    let (filename, at9) = match take_text(bytes, at8) {
        Ok(found) => found,
        Err(e) => {
            return Err(e);
        },
    };
    Ok(
        (
            RuleMetadata {
                id,
                name,
                risk,
                systeminfo,
                update,
                author,
                description,
                category,
                filename,
            },
            at9,
        ),
    )
}

fn take_rule(bytes: &[u8], pos: usize) -> (r: Result<(SerializedRule, usize), CodecError>)
    requires
        pos <= bytes.len(),
    ensures
        match r {
            Ok((x, next)) => reads(bytes@, pos, read_rule(bytes@.skip(pos as int)), x@, next),
            Err(e) => read_rule(bytes@.skip(pos as int)) == Err::<
                (SerializedRuleView, Seq<u8>),
                CodecError,
            >(e),
        },
{
    reveal(read_rule);
    let (metadata, at1) = match take_metadata(bytes, pos) {
        Ok(found) => found,
        Err(e) => {
            return Err(e);
        },
    };
    let (yaml_content, at2) = match take_text(bytes, at1) {
        Ok(found) => found,
        Err(e) => {
            return Err(e);
        },
    };
    let (paths, at3) = match take_texts(bytes, at2) {
        Ok(found) => found,
        Err(e) => {
            return Err(e);
        },
    };
    let (registry_entries, at4) = match take_entries(bytes, at3) {
        Ok(found) => found,
        Err(e) => {
            return Err(e);
        },
    };
    Ok((SerializedRule { metadata, yaml_content, paths, registry_entries }, at4))
}

fn take_rules(bytes: &[u8], pos: usize) -> (r: Result<(Vec<SerializedRule>, usize), CodecError>)
    requires
        pos <= bytes.len(),
    ensures
        match r {
            Ok((v, next)) => reads(
                bytes@,
                pos,
                read_rules(bytes@.skip(pos as int)),
                rule_views(v@),
                next,
            ),
            Err(e) => read_rules(bytes@.skip(pos as int)) == Err::<
                (Seq<SerializedRuleView>, Seq<u8>),
                CodecError,
            >(e),
        },
{
    reveal(read_rules);
    let (count, start) = match take_u64(bytes, pos) {
        Ok(found) => found,
        Err(e) => {
            return Err(e);
        },
    };
    let mut items: Vec<SerializedRule> = Vec::new();
    let mut cur: usize = start;
    let mut i: u64 = 0;
    assert(rule_views(items@) =~= Seq::empty());
    while i < count
        invariant
            i <= count,
            pos <= start <= cur <= bytes.len(),
            read_u64(bytes@.skip(pos as int)) == Ok::<(u64, Seq<u8>), CodecError>(
                (count, bytes@.skip(start as int)),
            ),
            read_rule_run(bytes@.skip(start as int), i as nat) == Ok::<
                (Seq<SerializedRuleView>, Seq<u8>),
                CodecError,
            >((rule_views(items@), bytes@.skip(cur as int))),
        decreases count - i,
    {
        match take_rule(bytes, cur) {
            Err(e) => {
                proof {
                    reveal(read_rules);
                    assert(read_rule_run(bytes@.skip(start as int), (i + 1) as nat) is Err);
                    lemma_rule_run_fails(bytes@.skip(start as int), (i + 1) as nat, count as nat, e);
                }
                return Err(e);
            },
            Ok((x, next)) => {
                let ghost before = items@;
                let ghost xv = x@;
                items.push(x);
                assert(rule_views(items@) =~= rule_views(before).push(xv));
                cur = next;
            },
        }
        i += 1;
    }
    Ok((items, cur))
}

fn take_header(bytes: &[u8], pos: usize) -> (r: Result<(RulesPackageHeader, usize), CodecError>)
    requires
        pos <= bytes.len(),
    ensures
        match r {
            Ok((x, next)) => reads(bytes@, pos, read_header(bytes@.skip(pos as int)), x@, next),
            Err(e) => read_header(bytes@.skip(pos as int)) == Err::<
                (RulesPackageHeaderView, Seq<u8>),
                CodecError,
            >(e),
        },
{
    reveal(read_header);
    let (version, at1) = match take_u32(bytes, pos) {
        Ok(found) => found,
        Err(e) => {
            return Err(e);
        },
    };
    let (created_at, at2) = match take_u64(bytes, at1) {
        Ok(found) => found,
        Err(e) => {
            return Err(e);
        },
    };
    let (rule_count, at3) = match take_count(bytes, at2) {
        Ok(found) => found,
        Err(e) => {
            return Err(e);
        },
    };
    let (compression, at4) = match take_text(bytes, at3) {
        Ok(found) => found,
        Err(e) => {
            return Err(e);
        },
    };
    let (categories, at5) = match take_texts(bytes, at4) {
        Ok(found) => found,
        Err(e) => {
            return Err(e);
        },
    };
    Ok((RulesPackageHeader { version, created_at, rule_count, compression, categories }, at5))
}

/// Decodes the package that `bytes` begin with. It succeeds exactly on the
/// byte sequences that the layout gives a package to, with that package, and
/// fails on every other with the error that the layout names; bytes behind
/// the package are left unread.
pub fn decode(bytes: &[u8]) -> (r: Result<RulesPackage, CodecError>)
    ensures
        match r {
            Ok(package) => decoding(bytes@) == Ok::<RulesPackageView, CodecError>(package@),
            Err(e) => decoding(bytes@) == Err::<RulesPackageView, CodecError>(e),
        },
{
    assert(bytes@.skip(0) =~= bytes@);
    let (header, at1) = match take_header(bytes, 0) {
        Ok(found) => found,
        Err(e) => {
            return Err(e);
        },
    };
    let (rules, _) = match take_rules(bytes, at1) {
        Ok(found) => found,
        Err(e) => {
            return Err(e);
        },
    };
    Ok(RulesPackage { header, rules })
}

} // verus!
