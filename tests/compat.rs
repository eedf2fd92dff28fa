use sect::codec::encode;
use sect::tlsvec::TlsByteVec16;
use tls_codec::Serialize;

#[test]
fn timestamp_matches_tls_codec() {
    let ours = encode(&72623859790383103u64).expect("encodes");
    let theirs = 72623859790383103u64.tls_serialize_detached().expect("serializes");
    assert_eq!(ours, theirs);
}

#[test]
fn two_byte_vector_matches_tls_codec() {
    let data = vec![9u8, 8, 7, 6];
    let ours = encode(&TlsByteVec16::new(data.clone())).expect("encodes");
    let theirs = tls_codec::TlsByteVecU16::new(data)
        .tls_serialize_detached()
        .expect("serializes");
    assert_eq!(ours, theirs);
}
