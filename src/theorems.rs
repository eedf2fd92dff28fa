use vstd::prelude::*;
use crate::codec::TlsCodec;
use crate::entry::MerkleLeaf;
use crate::error::CodecError;
use crate::vector::{lemma_seq_wire_concat, seq_valid, seq_wire, vec_parse, vec_valid, vec_wire};
use crate::uint::{be_bytes, be_value, lemma_be_bytes_len, lemma_be_round_trip, lemma_pow256_positive};
use crate::tlsvec::TlsVec24;
use crate::width::{lemma_max_content_24, PrefixWidth};

verus! {

/// Decoding the encoding of any encodable value gives the value back and
/// takes exactly the encoded bytes.
pub proof fn round_trip<T: TlsCodec>(m: T::V)
    requires
        T::valid(m),
    ensures
        T::parse(T::wire(m)) == Ok::<(T::V, nat), CodecError>((m, T::wire(m).len())),
{
    T::lemma_round_trip(m, Seq::empty());
    assert(T::wire(m) + Seq::<u8>::empty() =~= T::wire(m));
}

/// A three-byte-prefix vector whose element encodings add up to more than
/// 16,777,215 bytes cannot be encoded: its encode fails with `LengthOverflow`.
pub proof fn overflow_is_not_encodable<T: TlsCodec>(m: Seq<T::V>)
    requires
        seq_wire::<T>(m).len() > 16_777_215,
    ensures
        !TlsVec24::<T>::valid(m),
{
    lemma_max_content_24();
}

/// Bytes that end before the length their vector prefix declares fail to
/// decode with `Truncated`.
pub proof fn short_input_is_truncated<T: TlsCodec, W: PrefixWidth>(s: Seq<u8>)
    requires
        s.len() >= W::width(),
        s.len() - W::width() < be_value(s.subrange(0, W::width() as int)),
    ensures
        vec_parse::<T, W>(s) == Err::<(Seq<T::V>, nat), CodecError>(CodecError::Truncated),
{
}

/// A Merkle leaf whose selector byte is not zero fails to decode with
/// `UnknownVariant` of that selector.
pub proof fn unknown_leaf_selector(s: Seq<u8>)
    requires
        s.len() >= 1,
        s[0] != 0,
    ensures
        MerkleLeaf::parse(s) == Err::<(crate::entry::MerkleLeafModel, nat), CodecError>(
            CodecError::UnknownVariant(s[0] as u64),
        ),
{
    assert(s.subrange(0, 1).drop_last() =~= Seq::<u8>::empty());
    assert(be_value(s.subrange(0, 1)) == s[0]) by {
        reveal_with_fuel(be_value, 2);
    }
}

/// The sum of the encoded lengths of the models `m`.
pub open spec fn wire_len_sum<T: TlsCodec>(m: Seq<T::V>) -> nat
    decreases m.len(),
{
    if m.len() == 0 {
        0
    } else {
        wire_len_sum::<T>(m.drop_last()) + T::wire(m.last()).len()
    }
}

proof fn lemma_seq_wire_len<T: TlsCodec>(m: Seq<T::V>)
    ensures
        seq_wire::<T>(m).len() == wire_len_sum::<T>(m),
    decreases m.len(),
{
    if m.len() > 0 {
        lemma_seq_wire_len::<T>(m.drop_last());
        lemma_seq_wire_concat::<T>(m.drop_last(), seq![m.last()]);
        assert(m.drop_last() + seq![m.last()] =~= m);
        assert(seq![m.last()].drop_first() =~= Seq::<T::V>::empty());
        assert(seq_wire::<T>(seq![m.last()]) == T::wire(m.last()) + seq_wire::<T>(
            seq![m.last()].drop_first(),
        ));
    }
}

/// The length prefix of an encoded vector states the sum of the encoded
/// lengths of its elements, however their lengths differ, and the elements'
/// encodings follow it in order.
pub proof fn prefix_is_byte_length<T: TlsCodec, W: PrefixWidth>(m: Seq<T::V>)
    requires
        vec_valid::<T, W>(m),
    ensures
        be_value(vec_wire::<T, W>(m).subrange(0, W::width() as int)) == wire_len_sum::<T>(m),
        vec_wire::<T, W>(m).subrange(W::width() as int, vec_wire::<T, W>(m).len() as int)
            == seq_wire::<T>(m),
{
    W::lemma_width();
    lemma_pow256_positive(W::width());
    let c = seq_wire::<T>(m);
    lemma_seq_wire_len::<T>(m);
    lemma_be_bytes_len(c.len(), W::width());
    lemma_be_round_trip(c.len(), W::width());
    let w = vec_wire::<T, W>(m);
    assert(w.subrange(0, W::width() as int) =~= be_bytes(c.len(), W::width()));
    assert(w.subrange(W::width() as int, w.len() as int) =~= c);
}

proof fn lemma_be_bytes_zero(n: nat)
    ensures
        be_bytes(0, n) == Seq::new(n, |i: int| 0u8),
    decreases n,
{
    if n > 0 {
        lemma_be_bytes_zero((n - 1) as nat);
        assert(be_bytes(0, n) =~= Seq::new(n, |i: int| 0u8));
    } else {
        assert(be_bytes(0, n) =~= Seq::new(n, |i: int| 0u8));
    }
}

/// A vector without elements encodes as its prefix width of zero bytes,
/// and those bytes decode to a vector without elements.
pub proof fn empty_vector<T: TlsCodec, W: PrefixWidth>()
    ensures
        vec_valid::<T, W>(Seq::empty()),
        vec_wire::<T, W>(Seq::empty()) == Seq::new(W::width(), |i: int| 0u8),
        vec_parse::<T, W>(Seq::new(W::width(), |i: int| 0u8)) == Ok::<
            (Seq<T::V>, nat),
            CodecError,
        >((Seq::empty(), W::width())),
{
    W::lemma_width();
    lemma_pow256_positive(W::width());
    let e = Seq::<T::V>::empty();
    assert(seq_valid::<T>(e));
    assert(seq_wire::<T>(e) == Seq::<u8>::empty());
    lemma_be_bytes_zero(W::width());
    assert(vec_wire::<T, W>(e) =~= Seq::new(W::width(), |i: int| 0u8));
    crate::vector::lemma_vec_round_trip::<T, W>(e, Seq::empty());
    assert(vec_wire::<T, W>(e) + Seq::<u8>::empty() =~= vec_wire::<T, W>(e));
}

} // verus!
