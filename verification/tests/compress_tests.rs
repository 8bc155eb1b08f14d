use rules_packer::compress::{begins_like_stream, compress, decompress, select_payload};
use rules_packer::error::PackError;
use std::io::Write;

fn sample(n: usize) -> Vec<u8> {
    (0..n).map(|i| ((i * 31 + i / 7) % 251) as u8).collect()
}

#[test]
fn none_stores_the_data_as_they_are() {
    let data = sample(1000);
    assert_eq!(compress(data.clone(), "none"), Ok(data));
    assert_eq!(compress(Vec::new(), "none"), Ok(Vec::new()));
}

#[test]
fn zstd_writes_a_stream_that_decompresses_to_the_data() {
    for n in [0usize, 1, 10, 1000, 100_000, 300_000] {
        let data = sample(n);
        let packed = compress(data.clone(), "zstd").unwrap();
        assert_eq!(&packed[..4], &[0x28, 0xB5, 0x2F, 0xFD]);
        assert_eq!(decompress(&packed), data, "size {}", n);
    }
}

#[test]
fn zstd_shrinks_repetitive_data() {
    let data = vec![7u8; 50_000];
    let packed = compress(data.clone(), "zstd").unwrap();
    assert!(packed.len() < data.len() / 10);
    assert_ne!(packed, data);
}

#[test]
fn zstd_stream_is_the_one_a_stream_encoder_writes() {
    for n in [0usize, 5, 9000, 200_000] {
        let data = sample(n);
        let mut encoder = zstd::stream::Encoder::new(Vec::new(), 0).unwrap();
        encoder.write_all(&data).unwrap();
        let reference = encoder.finish().unwrap();
        assert_eq!(compress(data, "zstd").unwrap(), reference, "size {}", n);
    }
}

#[test]
fn compression_is_deterministic() {
    let data = sample(70_000);
    assert_eq!(compress(data.clone(), "zstd"), compress(data, "zstd"));
}

#[test]
fn unknown_algorithm_is_refused_by_name() {
    let r = compress(sample(10), "rot13");
    assert_eq!(r, Err(PackError::Config { algorithm: "rot13".to_string() }));
    for name in ["", "ZSTD", "zstd ", "None", "gzip"] {
        match compress(sample(10), name) {
            Err(PackError::Config { algorithm }) => assert_eq!(algorithm, name),
            other => panic!("{:?} was not refused: {:?}", name, other),
        }
    }
}

#[test]
fn bytes_that_are_no_stream_come_back_unchanged() {
    for data in [Vec::new(), vec![1u8, 0, 0, 0], sample(3), sample(5000), b"plain text".to_vec()] {
        assert_eq!(decompress(&data), data);
    }
}

#[test]
fn a_broken_stream_is_taken_as_it_is() {
    let packed = compress(sample(5000), "zstd").unwrap();
    let cut = packed[..packed.len() / 2].to_vec();
    assert_eq!(decompress(&cut), cut);
    let mut garbled = packed.clone();
    garbled.extend_from_slice(b"trailing garbage");
    assert_eq!(decompress(&garbled), garbled);
}

#[test]
fn decompress_agrees_with_the_stream_decoder() {
    let data = sample(12_345);
    let packed = zstd::stream::encode_all(&data[..], 19).unwrap();
    assert_eq!(decompress(&packed), data);
    let mut two = zstd::stream::encode_all(&data[..10], 1).unwrap();
    two.extend(zstd::stream::encode_all(&data[10..20], 1).unwrap());
    assert_eq!(decompress(&two), data[..20].to_vec());
}

#[test]
fn payload_is_the_decoded_content_or_the_bytes() {
    assert_eq!(select_payload(&[1, 2, 3], Some(vec![9, 9])), vec![9, 9]);
    assert_eq!(select_payload(&[1, 2, 3], Some(Vec::new())), Vec::<u8>::new());
    assert_eq!(select_payload(&[1, 2, 3], None), vec![1, 2, 3]);
    assert_eq!(select_payload(&[], None), Vec::<u8>::new());
}

#[test]
fn the_decoder_takes_nothing_without_a_magic_number() {
    let inputs: Vec<Vec<u8>> = vec![
        Vec::new(),
        vec![0x28],
        vec![0x28, 0xB5, 0x2F],
        vec![0x28, 0xB5, 0x2F, 0xFD],
        vec![1, 0, 0, 0, 0, 0, 0, 0, 0, 0, 0, 0],
        vec![0x29, 0xB5, 0x2F, 0xFD, 0, 0, 0, 0, 0],
        vec![0x1D, 0xB5, 0x2F, 0xFD, 0, 0, 0, 0, 0],
        vec![0x60, 0x2A, 0x4D, 0x18, 0, 0, 0, 0],
        vec![0x4F, 0x2A, 0x4D, 0x18, 0, 0, 0, 0],
        vec![0x50, 0x2A, 0x4D, 0x18],
        sample(64),
    ];
    for input in inputs {
        assert!(zstd::stream::decode_all(&input[..]).is_err(), "{:?}", input);
        assert_eq!(decompress(&input), input);
    }
    // a skippable frame alone is a stream without content
    let skippable = vec![0x50, 0x2A, 0x4D, 0x18, 2, 0, 0, 0, 9, 9];
    assert_eq!(zstd::stream::decode_all(&skippable[..]).ok(), Some(Vec::new()));
    assert_eq!(decompress(&skippable), Vec::<u8>::new());
}

#[test]
fn the_probe_knows_the_magic_numbers() {
    assert!(begins_like_stream(&[0x28, 0xB5, 0x2F, 0xFD]));
    assert!(begins_like_stream(&[0x28, 0xB5, 0x2F, 0xFD, 1, 2, 3]));
    assert!(begins_like_stream(&[0x1E, 0xB5, 0x2F, 0xFD]));
    assert!(begins_like_stream(&[0x27, 0xB5, 0x2F, 0xFD]));
    assert!(begins_like_stream(&[0x50, 0x2A, 0x4D, 0x18]));
    assert!(begins_like_stream(&[0x5F, 0x2A, 0x4D, 0x18]));
    assert!(!begins_like_stream(&[0x29, 0xB5, 0x2F, 0xFD]));
    assert!(!begins_like_stream(&[0x1D, 0xB5, 0x2F, 0xFD]));
    assert!(!begins_like_stream(&[0x60, 0x2A, 0x4D, 0x18]));
    assert!(!begins_like_stream(&[0x4F, 0x2A, 0x4D, 0x18]));
    assert!(!begins_like_stream(&[0x28, 0xB5, 0x2F]));
    assert!(!begins_like_stream(&[]));
    assert!(!begins_like_stream(&[1, 0, 0, 0, 9, 9, 9, 9]));
    assert!(begins_like_stream(&compress(sample(100), "zstd").unwrap()));
}
