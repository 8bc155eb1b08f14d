//! What holds of packing and unpacking as a whole.

use crate::assemble::{assembled, FORMAT_VERSION};
use crate::compress::{has_frame_magic, is_frame_magic};
use crate::error::PackError;
use crate::model::{RulesPackageView, SerializedRuleView};
use crate::pack::{pack_outcome, rules_from, PackOutput, RuleSourceView};
use crate::unpack::{files_of, package_in, OutputFileView};
use crate::wire::{encoding, wire_header, wire_rules, wire_texts, wire_text, wire_u32, wire_u64};
use vstd::bytes::*;
use vstd::prelude::*;

verus! {

/// Packing is repeatable: two successful packings of the same documents with
/// the same compression at the same time give the same bytes, byte for byte,
/// and report the same.
pub proof fn lemma_pack_repeatable(
    sources: Seq<RuleSourceView>,
    compress: Seq<char>,
    created_at: u64,
    first: PackOutput,
    second: PackOutput,
)
    requires
        pack_outcome(sources, compress, created_at, Ok::<PackOutput, PackError>(first)),
        pack_outcome(sources, compress, created_at, Ok::<PackOutput, PackError>(second)),
    ensures
        first.bytes@ == second.bytes@,
        first.rule_count == second.rule_count,
        first.encoded_size == second.encoded_size,
{
}

/// The time of assembly is the only thing that the time changes: the
/// encodings of the packages assembled from the same rules at two times have
/// the same length and differ at most in the eight bytes of `created_at`,
/// which stand behind the four bytes of the version.
pub proof fn lemma_time_changes_only_its_field(
    rules: Seq<SerializedRuleView>,
    compression: Seq<char>,
    first_time: u64,
    second_time: u64,
)
    ensures
        encoding(assembled(rules, compression, first_time)).len() == encoding(
            assembled(rules, compression, second_time),
        ).len(),
        encoding(assembled(rules, compression, first_time)).len() >= 12,
        encoding(assembled(rules, compression, first_time)).take(4) == encoding(
            assembled(rules, compression, second_time),
        ).take(4),
        encoding(assembled(rules, compression, first_time)).skip(12) == encoding(
            assembled(rules, compression, second_time),
        ).skip(12),
        encoding(assembled(rules, compression, first_time)).subrange(4, 12) == wire_u64(
            first_time,
        ),
{
    reveal(wire_header);
    lemma_auto_spec_u32_to_from_le_bytes();
    lemma_auto_spec_u64_to_from_le_bytes();
    let a = assembled(rules, compression, first_time);
    let b = assembled(rules, compression, second_time);
    let version = wire_u32(FORMAT_VERSION);
    let tail = wire_u64(a.header.rule_count as u64) + wire_text(compression) + wire_texts(
        a.header.categories,
    ) + wire_rules(rules);
    assert(encoding(a) =~= version + wire_u64(first_time) + tail);
    assert(encoding(b) =~= version + wire_u64(second_time) + tail);
    assert(encoding(a).take(4) =~= version);
    assert(encoding(b).take(4) =~= version);
    assert(encoding(a).skip(12) =~= tail);
    assert(encoding(b).skip(12) =~= tail);
    assert(encoding(a).subrange(4, 12) =~= wire_u64(first_time));
}

/// The encoding of a package does not look like a zstd stream, unless the
/// number of its format revision is a number that such a stream begins with.
pub proof fn lemma_encoding_is_no_stream(p: RulesPackageView)
    requires
        !is_frame_magic(p.header.version),
    ensures
        !has_frame_magic(encoding(p)),
{
    reveal(wire_header);
    lemma_auto_spec_u32_to_from_le_bytes();
    let version = wire_u32(p.header.version);
    assert(version.len() == 4);
    if encoding(p).len() >= 4 {
        assert(encoding(p).take(4) =~= version);
    }
}

/// The encoding of an assembled package does not look like a zstd stream, so
/// that a package stored without compression is read back as it is.
pub proof fn lemma_assembled_is_no_stream(
    rules: Seq<SerializedRuleView>,
    compression: Seq<char>,
    created_at: u64,
)
    ensures
        !has_frame_magic(encoding(assembled(rules, compression, created_at))),
{
    lemma_encoding_is_no_stream(assembled(rules, compression, created_at));
}

/// The file that a document is unpacked as.
pub open spec fn file_from(source: RuleSourceView) -> OutputFileView {
    OutputFileView {
        category: source.category,
        filename: source.filename,
        content: source.content,
    }
}

/// Unpacking inverts packing: the bytes of a successful packing hold a
/// package whose files are the documents that were packed, in order, each
/// under its category and file name and with its text unchanged.
pub proof fn lemma_unpack_inverts_pack(
    sources: Seq<RuleSourceView>,
    compress: Seq<char>,
    created_at: u64,
    packed: PackOutput,
)
    requires
        pack_outcome(sources, compress, created_at, Ok::<PackOutput, PackError>(packed)),
    ensures
        package_in(packed.bytes@) matches Ok(package) && files_of(package.rules)
            == sources.map_values(|s: RuleSourceView| file_from(s)),
{
    assert(files_of(rules_from(sources)) =~= sources.map_values(
        |s: RuleSourceView| file_from(s),
    ));
}

} // verus!
