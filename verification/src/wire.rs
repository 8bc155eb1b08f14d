//! The byte layout of a package, as mathematical functions on byte sequences.
//!
//! Integers are little-endian and of fixed width, a string is its UTF-8 length
//! as a `u64` followed by its bytes, a list is its element count as a `u64`
//! followed by its elements, an optional value is a tag byte (0 absent,
//! 1 present) followed by the value when present, and a record is its fields
//! in declaration order.

use crate::model::RegistryEntryView;
use crate::model::RuleMetadataView;
use crate::model::RulesPackageHeaderView;
use crate::model::RulesPackageView;
use crate::model::SerializedRuleView;
use vstd::bytes::*;
use vstd::prelude::*;
use vstd::utf8::*;

verus! {

/// Why a byte sequence is not the encoding of a package.
#[derive(Debug, Clone, Copy, PartialEq, Eq)]
pub enum CodecError {
    /// The bytes end before the value that is being read is complete.
    UnexpectedEnd,
    /// The tag byte of an optional value is neither 0 nor 1.
    InvalidOptionTag(u8),
    /// The bytes of a string are not valid UTF-8.
    InvalidUtf8,
    /// A stored count does not fit the machine's `usize`.
    CountOverflow,
}

/// A value read from the front of a byte sequence together with the bytes
/// that follow it, or the reason why none could be read.
pub type Parse<T> = Result<(T, Seq<u8>), CodecError>;

// ---------------------------------------------------------------------------
// Layout of each shape

pub open spec fn wire_u32(x: u32) -> Seq<u8> {
    spec_u32_to_le_bytes(x)
}

pub open spec fn wire_u64(x: u64) -> Seq<u8> {
    spec_u64_to_le_bytes(x)
}

pub open spec fn wire_text(t: Seq<char>) -> Seq<u8> {
    wire_u64(encode_utf8(t).len() as u64) + encode_utf8(t)
}

pub open spec fn wire_opt_text(o: Option<Seq<char>>) -> Seq<u8> {
    match o {
        None => seq![0u8],
        Some(t) => seq![1u8] + wire_text(t),
    }
}

/// The strings of `v` one after the other, without a count.
pub open spec fn wire_text_run(v: Seq<Seq<char>>) -> Seq<u8>
    decreases v.len(),
{
    if v.len() == 0 {
        Seq::empty()
    } else {
        wire_text_run(v.drop_last()) + wire_text(v.last())
    }
}

pub open spec fn wire_texts(v: Seq<Seq<char>>) -> Seq<u8> {
    wire_u64(v.len() as u64) + wire_text_run(v)
}

#[verifier::opaque]
pub open spec fn wire_entry(e: RegistryEntryView) -> Seq<u8> {
    wire_text(e.path) + wire_text(e.key) + wire_opt_text(e.value) + wire_opt_text(e.value_data)
        + wire_text(e.action)
}

/// The entries of `v` one after the other, without a count.
pub open spec fn wire_entry_run(v: Seq<RegistryEntryView>) -> Seq<u8>
    decreases v.len(),
{
    if v.len() == 0 {
        Seq::empty()
    } else {
        wire_entry_run(v.drop_last()) + wire_entry(v.last())
    }
}

pub open spec fn wire_entries(v: Seq<RegistryEntryView>) -> Seq<u8> {
    wire_u64(v.len() as u64) + wire_entry_run(v)
}

#[verifier::opaque]
pub open spec fn wire_metadata(m: RuleMetadataView) -> Seq<u8> {
    wire_text(m.id) + wire_text(m.name) + wire_text(m.risk) + wire_texts(m.systeminfo) + wire_text(
        m.update,
    ) + wire_opt_text(m.author) + wire_opt_text(m.description) + wire_text(m.category) + wire_text(
        m.filename,
    )
}

#[verifier::opaque]
pub open spec fn wire_rule(r: SerializedRuleView) -> Seq<u8> {
    wire_metadata(r.metadata) + wire_text(r.yaml_content) + wire_texts(r.paths) + wire_entries(
        r.registry_entries,
    )
}

/// The rules of `v` one after the other, without a count.
pub open spec fn wire_rule_run(v: Seq<SerializedRuleView>) -> Seq<u8>
    decreases v.len(),
{
    if v.len() == 0 {
        Seq::empty()
    } else {
        wire_rule_run(v.drop_last()) + wire_rule(v.last())
    }
}

pub open spec fn wire_rules(v: Seq<SerializedRuleView>) -> Seq<u8> {
    wire_u64(v.len() as u64) + wire_rule_run(v)
}

#[verifier::opaque]
pub open spec fn wire_header(h: RulesPackageHeaderView) -> Seq<u8> {
    wire_u32(h.version) + wire_u64(h.created_at) + wire_u64(h.rule_count as u64) + wire_text(
        h.compression,
    ) + wire_texts(h.categories)
}

/// The encoding of a package: its header, then its rules.
pub open spec fn encoding(p: RulesPackageView) -> Seq<u8> {
    wire_header(p.header) + wire_rules(p.rules)
}

// ---------------------------------------------------------------------------
// Reading each shape from the front of a byte sequence

pub open spec fn read_u32(s: Seq<u8>) -> Parse<u32> {
    if s.len() < 4 {
        Err(CodecError::UnexpectedEnd)
    } else {
        Ok((spec_u32_from_le_bytes(s.take(4)), s.skip(4)))
    }
}

pub open spec fn read_u64(s: Seq<u8>) -> Parse<u64> {
    if s.len() < 8 {
        Err(CodecError::UnexpectedEnd)
    } else {
        Ok((spec_u64_from_le_bytes(s.take(8)), s.skip(8)))
    }
}

#[verifier::opaque]
pub open spec fn read_count(s: Seq<u8>) -> Parse<usize> {
    match read_u64(s) {
        Err(e) => Err(e),
        Ok((n, rest)) => if n > usize::MAX {
            Err(CodecError::CountOverflow)
        } else {
            Ok((n as usize, rest))
        },
    }
}

#[verifier::opaque]
pub open spec fn read_text(s: Seq<u8>) -> Parse<Seq<char>> {
    match read_u64(s) {
        Err(e) => Err(e),
        Ok((n, rest)) => if rest.len() < n {
            Err(CodecError::UnexpectedEnd)
        } else if !valid_utf8(rest.take(n as int)) {
            Err(CodecError::InvalidUtf8)
        } else {
            Ok((decode_utf8(rest.take(n as int)), rest.skip(n as int)))
        },
    }
}

#[verifier::opaque]
pub open spec fn read_opt_text(s: Seq<u8>) -> Parse<Option<Seq<char>>> {
    if s.len() < 1 {
        Err(CodecError::UnexpectedEnd)
    } else if s[0] == 0 {
        Ok((None, s.skip(1)))
    } else if s[0] == 1 {
        match read_text(s.skip(1)) {
            Err(e) => Err(e),
            Ok((t, rest)) => Ok((Some(t), rest)),
        }
    } else {
        Err(CodecError::InvalidOptionTag(s[0]))
    }
}

/// Reads `count` strings that stand one after the other.
pub open spec fn read_text_run(s: Seq<u8>, count: nat) -> Parse<Seq<Seq<char>>>
    decreases count,
{
    if count == 0 {
        Ok((Seq::empty(), s))
    } else {
        match read_text_run(s, (count - 1) as nat) {
            Err(e) => Err(e),
            Ok((front, rest)) => match read_text(rest) {
                Err(e) => Err(e),
                Ok((t, end)) => Ok((front.push(t), end)),
            },
        }
    }
}

#[verifier::opaque]
pub open spec fn read_texts(s: Seq<u8>) -> Parse<Seq<Seq<char>>> {
    match read_u64(s) {
        Err(e) => Err(e),
        Ok((n, rest)) => read_text_run(rest, n as nat),
    }
}

#[verifier::opaque]
pub open spec fn read_entry(s: Seq<u8>) -> Parse<RegistryEntryView> {
    match read_text(s) {
        Err(e) => Err(e),
        Ok((path, s1)) => match read_text(s1) {
            Err(e) => Err(e),
            Ok((key, s2)) => match read_opt_text(s2) {
                Err(e) => Err(e),
                Ok((value, s3)) => match read_opt_text(s3) {
                    Err(e) => Err(e),
                    Ok((value_data, s4)) => match read_text(s4) {
                        Err(e) => Err(e),
                        Ok((action, s5)) => Ok(
                            (RegistryEntryView { path, key, value, value_data, action }, s5),
                        ),
                    },
                },
            },
        },
    }
}

/// Reads `count` entries that stand one after the other.
pub open spec fn read_entry_run(s: Seq<u8>, count: nat) -> Parse<Seq<RegistryEntryView>>
    decreases count,
{
    if count == 0 {
        Ok((Seq::empty(), s))
    } else {
        match read_entry_run(s, (count - 1) as nat) {
            Err(e) => Err(e),
            Ok((front, rest)) => match read_entry(rest) {
                Err(e) => Err(e),
                Ok((x, end)) => Ok((front.push(x), end)),
            },
        }
    }
}

#[verifier::opaque]
pub open spec fn read_entries(s: Seq<u8>) -> Parse<Seq<RegistryEntryView>> {
    match read_u64(s) {
        Err(e) => Err(e),
        Ok((n, rest)) => read_entry_run(rest, n as nat),
    }
}

#[verifier::opaque]
pub open spec fn read_metadata(s: Seq<u8>) -> Parse<RuleMetadataView> {
    match read_text(s) {
        Err(e) => Err(e),
        Ok((id, s1)) => match read_text(s1) {
            Err(e) => Err(e),
            Ok((name, s2)) => match read_text(s2) {
                Err(e) => Err(e),
                Ok((risk, s3)) => match read_texts(s3) {
                    Err(e) => Err(e),
                    Ok((systeminfo, s4)) => match read_text(s4) {
                        Err(e) => Err(e),
                        Ok((update, s5)) => match read_opt_text(s5) {
                            Err(e) => Err(e),
                            Ok((author, s6)) => match read_opt_text(s6) {
                                Err(e) => Err(e),
                                Ok((description, s7)) => match read_text(s7) {
                                    Err(e) => Err(e),
                                    Ok((category, s8)) => match read_text(s8) {
                                        Err(e) => Err(e),
                                        Ok((filename, s9)) => Ok(
                                            (
                                                RuleMetadataView {
                                                    id,
                                                    name,
                                                    risk,
                                                    systeminfo,
                                                    update,
                                                    author,
                                                    description,
                                                    category,
                                                    filename,
                                                },
                                                s9,
                                            ),
                                        ),
                                    },
                                },
                            },
                        },
                    },
                },
            },
        },
    }
}

#[verifier::opaque]
pub open spec fn read_rule(s: Seq<u8>) -> Parse<SerializedRuleView> {
    match read_metadata(s) {
        Err(e) => Err(e),
        Ok((metadata, s1)) => match read_text(s1) {
            Err(e) => Err(e),
            Ok((yaml_content, s2)) => match read_texts(s2) {
                Err(e) => Err(e),
                Ok((paths, s3)) => match read_entries(s3) {
                    Err(e) => Err(e),
                    Ok((registry_entries, s4)) => Ok(
                        (SerializedRuleView { metadata, yaml_content, paths, registry_entries }, s4),
                    ),
                },
            },
        },
    }
}

/// Reads `count` rules that stand one after the other.
pub open spec fn read_rule_run(s: Seq<u8>, count: nat) -> Parse<Seq<SerializedRuleView>>
    decreases count,
{
    if count == 0 {
        Ok((Seq::empty(), s))
    } else {
        match read_rule_run(s, (count - 1) as nat) {
            Err(e) => Err(e),
            Ok((front, rest)) => match read_rule(rest) {
                Err(e) => Err(e),
                Ok((x, end)) => Ok((front.push(x), end)),
            },
        }
    }
}

#[verifier::opaque]
pub open spec fn read_rules(s: Seq<u8>) -> Parse<Seq<SerializedRuleView>> {
    match read_u64(s) {
        Err(e) => Err(e),
        Ok((n, rest)) => read_rule_run(rest, n as nat),
    }
}

#[verifier::opaque]
pub open spec fn read_header(s: Seq<u8>) -> Parse<RulesPackageHeaderView> {
    match read_u32(s) {
        Err(e) => Err(e),
        Ok((version, s1)) => match read_u64(s1) {
            Err(e) => Err(e),
            Ok((created_at, s2)) => match read_count(s2) {
                Err(e) => Err(e),
                Ok((rule_count, s3)) => match read_text(s3) {
                    Err(e) => Err(e),
                    Ok((compression, s4)) => match read_texts(s4) {
                        Err(e) => Err(e),
                        Ok((categories, s5)) => Ok(
                            (
                                RulesPackageHeaderView {
                                    version,
                                    created_at,
                                    rule_count,
                                    compression,
                                    categories,
                                },
                                s5,
                            ),
                        ),
                    },
                },
            },
        },
    }
}

/// The package that a byte sequence begins with. Bytes that follow the package
/// are not looked at.
pub open spec fn decoding(s: Seq<u8>) -> Result<RulesPackageView, CodecError> {
    match read_header(s) {
        Err(e) => Err(e),
        Ok((header, s1)) => match read_rules(s1) {
            Err(e) => Err(e),
            Ok((rules, _)) => Ok(RulesPackageView { header, rules }),
        },
    }
}

} // verus!
