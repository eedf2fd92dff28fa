use vstd::prelude::*;
use crate::error::CodecError;
use crate::uint::{be_bytes, be_value, pow256, read_uint, write_uint};

verus! {

/// Whether an exec decode result `r` agrees with the spec decode result `p`:
/// the same value (by its model) and byte count, or the same error.
pub open spec fn decoded_as<T: View>(
    r: Result<(T, usize), CodecError>,
    p: Result<(T::V, nat), CodecError>,
) -> bool {
    match r {
        Ok((v, n)) => p == Ok::<(T::V, nat), CodecError>((v@, n as nat)),
        Err(e) => p == Err::<(T::V, nat), CodecError>(e),
    }
}

/// A value with a self-delimiting wire encoding.
///
/// The model of a value (its view) decides its encoding: `wire` gives the
/// bytes of an encodable model, `parse` reads one value off the front of a
/// byte sequence and says how many bytes it took, or why it failed.
pub trait TlsCodec: View + Sized {
    /// Whether a model can be encoded: every length it holds fits its prefix.
    spec fn valid(m: Self::V) -> bool;

    /// The encoding of a model.
    spec fn wire(m: Self::V) -> Seq<u8>;

    /// Reads one value from the front of `s`: its model and the bytes it took.
    spec fn parse(s: Seq<u8>) -> Result<(Self::V, nat), CodecError>;

    /// A successful read takes at least one byte, and no more than there are.
    proof fn lemma_parse_takes(s: Seq<u8>)
        ensures
            Self::parse(s) matches Ok((m, n)) ==> 0 < n <= s.len(),
    ;

    /// Reading an encoding gives back the model and takes exactly its bytes,
    /// whatever follows it.
    proof fn lemma_round_trip(m: Self::V, rest: Seq<u8>)
        requires
            Self::valid(m),
        ensures
            Self::parse(Self::wire(m) + rest) == Ok::<(Self::V, nat), CodecError>(
                (m, Self::wire(m).len()),
            ),
    ;

    /// The number of bytes of the encoding.
    fn tls_serialized_len(&self) -> (r: usize)
        requires
            Self::wire(self@).len() <= usize::MAX,
        ensures
            r == Self::wire(self@).len(),
    ;

    /// Appends the encoding to `out`; fails with `LengthOverflow` exactly when
    /// some length does not fit its prefix, leaving what `out` held in front.
    fn tls_serialize(&self, out: &mut Vec<u8>) -> (r: Result<usize, CodecError>)
        ensures
            Self::valid(self@) ==> r == Ok::<usize, CodecError>(Self::wire(self@).len() as usize)
                && final(out)@ == old(out)@ + Self::wire(self@),
            !Self::valid(self@) ==> r == Err::<usize, CodecError>(CodecError::LengthOverflow)
                && final(out)@.len() >= old(out)@.len()
                && final(out)@.subrange(0, old(out)@.len() as int) == old(out)@,
    ;

    /// Reads one value from `buf` at `pos`, with the number of bytes it took.
    fn tls_deserialize(buf: &[u8], pos: usize) -> (r: Result<(Self, usize), CodecError>)
        requires
            pos <= buf@.len(),
        ensures
            decoded_as(r, Self::parse(buf@.subrange(pos as int, buf@.len() as int))),
    ;
}

/// The encoding of a fixed-width unsigned integer of `width` bytes.
pub open spec fn parse_uint(s: Seq<u8>, width: nat) -> Result<(nat, nat), CodecError> {
    if s.len() < width {
        Err(CodecError::Truncated)
    } else {
        Ok((be_value(s.subrange(0, width as int)), width))
    }
}

pub proof fn lemma_uint_round_trip(v: nat, width: nat, rest: Seq<u8>)
    requires
        v < pow256(width),
    ensures
        (be_bytes(v, width) + rest).len() >= width,
        be_value((be_bytes(v, width) + rest).subrange(0, width as int)) == v,
{
    crate::uint::lemma_be_bytes_len(v, width);
    crate::uint::lemma_be_round_trip(v, width);
    assert((be_bytes(v, width) + rest).subrange(0, width as int) =~= be_bytes(v, width));
}

pub(crate) fn uint_at(buf: &[u8], pos: usize, width: usize) -> (r: Result<(u64, usize), CodecError>)
    requires
        1 <= width <= 8,
        pos <= buf@.len(),
    ensures
        match (r, parse_uint(buf@.subrange(pos as int, buf@.len() as int), width as nat)) {
            (Ok((v, n)), Ok((w, m))) => v as nat == w && n as nat == m,
            (Err(e), Err(f)) => e == f,
            _ => false,
        },
{
    let ghost s = buf@.subrange(pos as int, buf@.len() as int);
    match read_uint(buf, pos, width) {
        Ok(v) => {
            assert(s.subrange(0, width as int) =~= buf@.subrange(pos as int, pos + width));
            Ok((v, width))
        },
        Err(e) => Err(e),
    }
}

impl TlsCodec for u8 {
    open spec fn valid(m: u8) -> bool {
        true
    }

    open spec fn wire(m: u8) -> Seq<u8> {
        seq![m]
    }

    open spec fn parse(s: Seq<u8>) -> Result<(u8, nat), CodecError> {
        if s.len() < 1 {
            Err(CodecError::Truncated)
        } else {
            Ok((s[0], 1))
        }
    }

    proof fn lemma_parse_takes(s: Seq<u8>) {
    }

    proof fn lemma_round_trip(m: u8, rest: Seq<u8>) {
        assert((seq![m] + rest)[0] == m);
    }

    fn tls_serialized_len(&self) -> (r: usize) {
        1
    }

    fn tls_serialize(&self, out: &mut Vec<u8>) -> (r: Result<usize, CodecError>) {
        out.push(*self);
        assert(out@ =~= old(out)@ + seq![*self]);
        Ok(1)
    }

    fn tls_deserialize(buf: &[u8], pos: usize) -> (r: Result<(u8, usize), CodecError>) {
        if pos < buf.len() {
            Ok((buf[pos], 1))
        } else {
            Err(CodecError::Truncated)
        }
    }
}

impl TlsCodec for u64 {
    open spec fn valid(m: u64) -> bool {
        true
    }

    open spec fn wire(m: u64) -> Seq<u8> {
        be_bytes(m as nat, 8)
    }

    open spec fn parse(s: Seq<u8>) -> Result<(u64, nat), CodecError> {
        match parse_uint(s, 8) {
            Ok((v, n)) => Ok((v as u64, n)),
            Err(e) => Err(e),
        }
    }

    proof fn lemma_parse_takes(s: Seq<u8>) {
    }

    proof fn lemma_round_trip(m: u64, rest: Seq<u8>) {
        crate::uint::lemma_pow256_eight();
        lemma_uint_round_trip(m as nat, 8, rest);
        crate::uint::lemma_be_bytes_len(m as nat, 8);
    }

    fn tls_serialized_len(&self) -> (r: usize) {
        proof {
            crate::uint::lemma_be_bytes_len(*self as nat, 8);
        }
        8
    }

    fn tls_serialize(&self, out: &mut Vec<u8>) -> (r: Result<usize, CodecError>) {
        proof {
            crate::uint::lemma_pow256_eight();
            crate::uint::lemma_be_bytes_len(*self as nat, 8);
        }
        write_uint(*self, 8, out);
        Ok(8)
    }

    fn tls_deserialize(buf: &[u8], pos: usize) -> (r: Result<(u64, usize), CodecError>) {
        match uint_at(buf, pos, 8) {
            Ok((v, n)) => Ok((v, n)),
            Err(e) => Err(e),
        }
    }
}

} // verus!

verus! {

/// An unsigned integer written as three bytes, most significant first.
#[derive(Clone, Copy, PartialEq, Eq, Debug)]
pub struct U24 {
    pub data: usize,
}

impl U24 {
    /// The largest value that three bytes hold.
    pub const MAX: usize = 16_777_215;
}

impl View for U24 {
    type V = usize;

    open spec fn view(&self) -> usize {
        self.data
    }
}

impl TlsCodec for U24 {
    open spec fn valid(m: usize) -> bool {
        m <= 16_777_215
    }

    open spec fn wire(m: usize) -> Seq<u8> {
        be_bytes(m as nat, 3)
    }

    open spec fn parse(s: Seq<u8>) -> Result<(usize, nat), CodecError> {
        match parse_uint(s, 3) {
            Ok((v, n)) => Ok((v as usize, n)),
            Err(e) => Err(e),
        }
    }

    proof fn lemma_parse_takes(s: Seq<u8>) {
    }

    proof fn lemma_round_trip(m: usize, rest: Seq<u8>) {
        reveal_with_fuel(pow256, 4);
        lemma_uint_round_trip(m as nat, 3, rest);
        crate::uint::lemma_be_bytes_len(m as nat, 3);
    }

    fn tls_serialized_len(&self) -> (r: usize) {
        proof {
            crate::uint::lemma_be_bytes_len(self.data as nat, 3);
        }
        3
    }

    fn tls_serialize(&self, out: &mut Vec<u8>) -> (r: Result<usize, CodecError>) {
        if self.data > U24::MAX {
            return Err(CodecError::LengthOverflow);
        }
        proof {
            reveal_with_fuel(pow256, 4);
            crate::uint::lemma_be_bytes_len(self.data as nat, 3);
        }
        write_uint(self.data as u64, 3, out);
        Ok(3)
    }

    fn tls_deserialize(buf: &[u8], pos: usize) -> (r: Result<(U24, usize), CodecError>) {
        match uint_at(buf, pos, 3) {
            Ok((v, n)) => {
                proof {
                    crate::uint::lemma_be_value_bound(buf@.subrange(pos as int, pos + 3));
                    reveal_with_fuel(pow256, 4);
                }
                Ok((U24 { data: v as usize }, n))
            },
            Err(e) => Err(e),
        }
    }
}

/// Encodes `v` into a fresh byte vector; fails with `LengthOverflow` exactly
/// when some length in `v` does not fit its prefix.
pub fn encode<T: TlsCodec>(v: &T) -> (r: Result<Vec<u8>, CodecError>)
    ensures
        T::valid(v@) ==> (r matches Ok(b) && b@ == T::wire(v@)),
        !T::valid(v@) ==> r == Err::<Vec<u8>, CodecError>(CodecError::LengthOverflow),
{
    let mut out: Vec<u8> = Vec::new();
    match v.tls_serialize(&mut out) {
        Ok(_) => {
            assert(out@ =~= T::wire(v@));
            Ok(out)
        },
        Err(e) => Err(e),
    }
}

/// Decodes one value from the front of `bytes`; bytes after it are left to
/// the caller and are no error.
pub fn decode<T: TlsCodec>(bytes: &[u8]) -> (r: Result<T, CodecError>)
    ensures
        match (r, T::parse(bytes@)) {
            (Ok(v), Ok((m, _))) => v@ == m,
            (Err(e), Err(f)) => e == f,
            _ => false,
        },
{
    assert(bytes@.subrange(0, bytes@.len() as int) =~= bytes@);
    match T::tls_deserialize(bytes, 0) {
        Ok((v, _)) => Ok(v),
        Err(e) => Err(e),
    }
}

} // verus!
