//! The compression layer: an optional zstd stream around the bytes of the
//! codec, recognised on reading by trying it.

use crate::error::PackError;
use vstd::bytes::*;
use vstd::prelude::*;
use vstd::slice::*;

verus! {

/// `std::io::Error`, the compressor's complaint; only its message is read.
#[verifier::external_type_specification]
#[verifier::external_body]
pub struct ExIoError(std::io::Error);

/// The zstd stream that `zstd::stream::encode_all` writes for `data` at the
/// default level.
pub uninterp spec fn zstd_frame(data: Seq<u8>) -> Seq<u8>;

/// The content that `zstd::stream::decode_all` reads from `bytes`, or nothing
/// where it rejects them.
pub uninterp spec fn zstd_content(bytes: Seq<u8>) -> Option<Seq<u8>>;

/// The numbers that a zstd stream may begin with: that of a frame of the
/// current format or of one of its earlier revisions, or one of the sixteen
/// of a skippable frame.
pub open spec fn is_frame_magic(m: u32) -> bool {
    ||| 0xFD2F_B51E <= m <= 0xFD2F_B528
    ||| 0x184D_2A50 <= m <= 0x184D_2A5F
}

/// The bytes begin with four bytes that are, read as a little-endian number,
/// one that a zstd stream may begin with.
pub open spec fn has_frame_magic(bytes: Seq<u8>) -> bool {
    bytes.len() >= 4 && is_frame_magic(spec_u32_from_le_bytes(bytes.take(4)))
}

/// `zstd::stream::encode_all` at level 0, zstd's default. Where it succeeds,
/// the stream is the one that zstd writes for this data, it begins with the
/// magic number of a frame, and decoding it gives the data back: zstd is
/// lossless. The encoder reads nothing but the data, so the same data always
/// give the same stream.
#[verifier::external_body]
fn zstd_encode(data: &[u8]) -> (r: Result<Vec<u8>, std::io::Error>)
    ensures
        r matches Ok(frame) ==> {
            &&& frame@ == zstd_frame(data@)
            &&& has_frame_magic(frame@)
            &&& zstd_content(frame@) == Some(data@)
        },
{
    zstd::stream::encode_all(data, 0)
}

/// `zstd::stream::decode_all`: the content of the stream, or nothing where
/// the decoder rejects the bytes. The decoder reads nothing but the bytes.
#[verifier::external_body]
fn zstd_decode(bytes: &[u8]) -> (r: Option<Vec<u8>>)
    ensures
        match r {
            Some(content) => zstd_content(bytes@) == Some(content@),
            None => zstd_content(bytes@) is None,
        },
{
    zstd::stream::decode_all(bytes).ok()
}

/// The message of an `std::io::Error`, as its `Display` writes it.
#[verifier::external_body]
fn io_error_text(error: &std::io::Error) -> (message: String) {
    error.to_string()
}

fn same_text(a: &str, b: &str) -> (r: bool)
    ensures
        r == (a@ == b@),
{
    let x = a.to_owned();
    let y = b.to_owned();
    x == y
}

/// A name of a supported compression.
pub open spec fn is_algorithm(name: Seq<char>) -> bool {
    name == "none"@ || name == "zstd"@
}

/// What compressing `data` with `algorithm` gives, where it gives anything.
pub open spec fn compressed(data: Seq<u8>, algorithm: Seq<char>) -> Seq<u8> {
    if algorithm == "zstd"@ {
        zstd_frame(data)
    } else {
        data
    }
}

/// What is taken for the bytes of the codec, given what the zstd decoder
/// made of `bytes`: the content of the stream where it found one, and the
/// bytes themselves where it did not.
pub open spec fn payload(bytes: Seq<u8>, decoded: Option<Seq<u8>>) -> Seq<u8> {
    match decoded {
        Some(content) => content,
        None => bytes,
    }
}

/// What decompressing `bytes` gives. Bytes that do not begin like a zstd
/// stream are none and are taken as they are; all others are what the zstd
/// decoder makes of them, and taken as they are where it rejects them.
pub open spec fn decompressed(bytes: Seq<u8>) -> Seq<u8> {
    if has_frame_magic(bytes) {
        payload(bytes, zstd_content(bytes))
    } else {
        bytes
    }
}

/// The outcome of compressing `data` with `algorithm`: the compressed bytes
/// under a supported name, from which a zstd stream gives the data back; the
/// refusal of any other name, with the name; or the compressor's failure.
pub open spec fn compress_outcome(
    data: Seq<u8>,
    algorithm: Seq<char>,
    r: Result<Vec<u8>, PackError>,
) -> bool {
    match r {
        Ok(out) => {
            &&& is_algorithm(algorithm)
            &&& out@ == compressed(data, algorithm)
            &&& algorithm == "zstd"@ ==> decompressed(out@) == data
        },
        Err(PackError::Config { algorithm: name }) => !is_algorithm(algorithm) && name@
            == algorithm,
        Err(PackError::Io { .. }) => algorithm == "zstd"@,
        Err(_) => false,
    }
}

/// Compresses `data` with the algorithm of the given name: `none` stores the
/// data as they are, `zstd` writes a zstd stream, and every other name is
/// refused with the name. `none` never fails; `zstd` fails only where the
/// compressor does.
pub fn compress(data: Vec<u8>, algorithm: &str) -> (r: Result<Vec<u8>, PackError>)
    ensures
        compress_outcome(data@, algorithm@, r),
        algorithm@ == "none"@ ==> r is Ok,
        !is_algorithm(algorithm@) ==> r is Err,
{
    proof {
        reveal_strlit("none");
        reveal_strlit("zstd");
        assert("none"@ != "zstd"@) by {
            assert("none"@[0] == 'n');
            assert("zstd"@[0] == 'z');
        }
    }
    if same_text(algorithm, "zstd") {
        match zstd_encode(data.as_slice()) {
            Ok(frame) => Ok(frame),
            Err(error) => Err(PackError::Io { message: io_error_text(&error) }),
        }
    } else if same_text(algorithm, "none") {
        Ok(data)
    } else {
        Err(PackError::Config { algorithm: algorithm.to_owned() })
    }
}

/// Chooses between what the zstd decoder made of `bytes` and the bytes
/// themselves: the decoded content where there is one, else the bytes.
pub fn select_payload(bytes: &[u8], decoded: Option<Vec<u8>>) -> (r: Vec<u8>)
    ensures
        r@ == payload(
            bytes@,
            match decoded {
                Some(content) => Some(content@),
                None => None,
            },
        ),
{
    match decoded {
        Some(content) => content,
        None => slice_to_vec(bytes),
    }
}

/// Whether the bytes begin like a zstd stream.
pub fn begins_like_stream(bytes: &[u8]) -> (r: bool)
    ensures
        r == has_frame_magic(bytes@),
{
    if bytes.len() < 4 {
        return false;
    }
    let m = u32_from_le_bytes(slice_subrange(bytes, 0, 4));
    assert(bytes@.subrange(0, 4) =~= bytes@.take(4));
    (0xFD2F_B51E <= m && m <= 0xFD2F_B528) || (0x184D_2A50 <= m && m <= 0x184D_2A5F)
}

/// Undoes the compression layer, whatever a header may say of it: the bytes
/// are probed. Those that begin like a zstd stream are handed to the zstd
/// decoder, and where it rejects them they are taken as they are; those that
/// do not are taken as they are at once. So the bytes of an uncompressed
/// package always come back unchanged, and this never fails.
pub fn decompress(bytes: &[u8]) -> (r: Vec<u8>)
    ensures
        r@ == decompressed(bytes@),
        !has_frame_magic(bytes@) ==> r@ == bytes@,
{
    if begins_like_stream(bytes) {
        let decoded = zstd_decode(bytes);
        select_payload(bytes, decoded)
    } else {
        select_payload(bytes, None)
    }
}

} // verus!
