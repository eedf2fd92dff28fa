use sect::codec::{TlsCodec, U24};
use sect::entry::{Asn1Cert, LogEntry, MerkleLeaf, MerkleTreeLeaf, PreCert, TimeStampedEntry};
use sect::error::CodecError;
use sect::codec::{decode, encode};
use sect::tlsvec::{TlsByteVec16, TlsByteVec24, TlsVec24};

#[test]
fn roundtrip() {
    let values = [0, 1, 255, 256, 50000, U24::MAX];
    for d in values {
        let ser = U24 { data: d };
        let mut buf = Vec::new();
        ser.tls_serialize(&mut buf).expect("serializes");
        let de = U24::tls_deserialize(&buf, 0).expect("deserializes").0;
        assert_eq!(ser.data, de.data);
    }
}

#[test]
fn test() {
    let x509 = &[
        1u8, 0, 1, 2, 3, 4, 5, 6, 7, 255, 0, 0, 0, 0, 0, 0, 0, 0, 0, 0, 0, 0, 0, 0, 0, 0, 0, 0, 0,
        0, 0, 0,
    ] as &[u8];
    let v = MerkleTreeLeaf::tls_deserialize(x509, 0).expect("deserialize").0;
    assert_eq!(
        v,
        MerkleTreeLeaf {
            version: 1,
            signed_entry: MerkleLeaf::TimeStampedEntry(TimeStampedEntry {
                timestamp: 72623859790383103,
                log_entry: LogEntry::X509Entry(Asn1Cert {
                    opaque: vec![].into(),
                }),
                extensions: vec![].into(),
            })
        }
    );
}

#[test]
fn golden_fixture_takes_only_its_bytes() {
    let bytes = [1u8, 0, 1, 2, 3, 4, 5, 6, 7, 255, 0, 0, 0, 0, 0, 0, 0, 9, 9];
    let (_, n) = MerkleTreeLeaf::tls_deserialize(&bytes, 0).expect("deserialize");
    assert_eq!(n, 17);
}

#[test]
fn u24_is_big_endian() {
    let mut buf = Vec::new();
    assert_eq!(U24 { data: 0x010203 }.tls_serialize(&mut buf), Ok(3));
    assert_eq!(buf, vec![1, 2, 3]);
}

#[test]
fn u24_over_max_is_rejected() {
    let mut buf = Vec::new();
    assert_eq!(
        U24 { data: U24::MAX + 1 }.tls_serialize(&mut buf),
        Err(CodecError::LengthOverflow)
    );
}

#[test]
fn u24_short_input_is_truncated() {
    assert_eq!(U24::tls_deserialize(&[1, 2], 0), Err(CodecError::Truncated));
}

fn sample_leaf() -> MerkleTreeLeaf {
    MerkleTreeLeaf {
        version: 0,
        signed_entry: MerkleLeaf::TimeStampedEntry(TimeStampedEntry {
            timestamp: 1_700_000_000_123,
            log_entry: LogEntry::PrecertEntry(PreCert {
                issuer_key_hash: [7u8; 32],
                tbs_certificate: TlsByteVec24::new(vec![0x30, 0x82, 0x01]),
            }),
            extensions: TlsByteVec16::new(vec![0xAA, 0xBB]),
        }),
    }
}

#[test]
fn precert_leaf_layout() {
    let bytes = encode(&sample_leaf()).expect("encodes");
    let mut expected = vec![0u8, 0];
    expected.extend_from_slice(&1_700_000_000_123u64.to_be_bytes());
    expected.extend_from_slice(&[0, 1]);
    expected.extend_from_slice(&[7u8; 32]);
    expected.extend_from_slice(&[0, 0, 3, 0x30, 0x82, 0x01]);
    expected.extend_from_slice(&[0, 2, 0xAA, 0xBB]);
    assert_eq!(bytes, expected);
}

#[test]
fn leaf_round_trip() {
    let leaf = sample_leaf();
    let bytes = encode(&leaf).expect("encodes");
    let back: MerkleTreeLeaf = decode(&bytes).expect("decodes");
    assert_eq!(back, leaf);
}

#[test]
fn x509_leaf_round_trip() {
    let leaf = MerkleTreeLeaf {
        version: 1,
        signed_entry: MerkleLeaf::TimeStampedEntry(TimeStampedEntry {
            timestamp: u64::MAX,
            log_entry: LogEntry::X509Entry(Asn1Cert {
                opaque: TlsByteVec24::new((0..=255u8).collect()),
            }),
            extensions: TlsByteVec16::new(vec![]),
        }),
    };
    let bytes = encode(&leaf).expect("encodes");
    assert_eq!(bytes.len(), 1 + 1 + 8 + 2 + 3 + 256 + 2);
    let back: MerkleTreeLeaf = decode(&bytes).expect("decodes");
    assert_eq!(back, leaf);
}

#[test]
fn vector_content_over_max_overflows() {
    let big = TlsByteVec24::new(vec![0u8; 16_777_216]);
    assert_eq!(encode(&big), Err(CodecError::LengthOverflow));
    let fits = TlsByteVec24::new(vec![0u8; 16_777_215]);
    let bytes = encode(&fits).expect("encodes");
    assert_eq!(&bytes[..3], &[0xFF, 0xFF, 0xFF]);
    assert_eq!(bytes.len(), 3 + 16_777_215);
}

#[test]
fn extensions_over_max_overflow_in_leaf() {
    let leaf = MerkleTreeLeaf {
        version: 0,
        signed_entry: MerkleLeaf::TimeStampedEntry(TimeStampedEntry {
            timestamp: 5,
            log_entry: LogEntry::X509Entry(Asn1Cert {
                opaque: TlsByteVec24::new(vec![1]),
            }),
            extensions: TlsByteVec16::new(vec![0u8; 65_536]),
        }),
    };
    assert_eq!(encode(&leaf), Err(CodecError::LengthOverflow));
}

#[test]
fn short_vector_is_truncated() {
    let bytes = [0u8, 0, 5, 1, 2, 3];
    assert_eq!(decode::<TlsByteVec24>(&bytes), Err(CodecError::Truncated));
    assert_eq!(decode::<TlsByteVec24>(&[0u8, 0]), Err(CodecError::Truncated));
}

#[test]
fn short_leaf_is_truncated() {
    let bytes = [1u8, 0, 1, 2, 3];
    assert_eq!(decode::<MerkleTreeLeaf>(&bytes), Err(CodecError::Truncated));
}

#[test]
fn unknown_leaf_selector_is_rejected() {
    let mut bytes = vec![1u8, 1];
    bytes.extend_from_slice(&[0u8; 20]);
    assert_eq!(
        decode::<MerkleTreeLeaf>(&bytes),
        Err(CodecError::UnknownVariant(1))
    );
    assert_eq!(
        decode::<MerkleLeaf>(&[7u8, 0, 0]),
        Err(CodecError::UnknownVariant(7))
    );
}

#[test]
fn unknown_log_entry_selector_is_rejected() {
    assert_eq!(
        decode::<LogEntry>(&[0u8, 2, 0, 0, 0]),
        Err(CodecError::UnknownVariant(2))
    );
}

#[test]
fn element_past_declared_length_is_malformed() {
    // Declares 4 content bytes, but the inner vector claims 3 bytes after its own 3-byte prefix.
    let bytes = [0u8, 0, 4, 0, 0, 3, 1, 2, 3];
    assert_eq!(
        decode::<TlsVec24<TlsByteVec24>>(&bytes),
        Err(CodecError::Malformed)
    );
}

#[test]
fn nested_vectors_count_bytes_not_elements() {
    let inner = vec![
        TlsByteVec24::new(vec![]),
        TlsByteVec24::new(vec![1]),
        TlsByteVec24::new(vec![2, 3, 4, 5, 6]),
    ];
    let outer = TlsVec24::new(inner);
    let bytes = encode(&outer).expect("encodes");
    assert_eq!(
        bytes,
        vec![0, 0, 15, 0, 0, 0, 0, 0, 1, 1, 0, 0, 5, 2, 3, 4, 5, 6]
    );
    assert_eq!(outer.tls_serialized_length(), 18);
    let back: TlsVec24<TlsByteVec24> = decode(&bytes).expect("decodes");
    assert_eq!(back, outer);
    assert_eq!(back.len(), 3);
}

#[test]
fn empty_vector_is_prefix_of_zeros() {
    let e24: TlsByteVec24 = TlsVec24::new(vec![]);
    assert_eq!(encode(&e24).expect("encodes"), vec![0, 0, 0]);
    let e16 = TlsByteVec16::new(vec![]);
    assert_eq!(encode(&e16).expect("encodes"), vec![0, 0]);
    let back: TlsByteVec24 = decode(&[0u8, 0, 0]).expect("decodes");
    assert!(back.is_empty());
    let back16: TlsByteVec16 = decode(&[0u8, 0]).expect("decodes");
    assert!(back16.is_empty());
}
