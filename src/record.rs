use vstd::prelude::*;
use crate::codec::TlsCodec;
use crate::error::CodecError;

verus! {

/// Reads an `A` and then a `B` right after it.
pub open spec fn parse2<A: TlsCodec, B: TlsCodec>(s: Seq<u8>) -> Result<((A::V, B::V), nat), CodecError> {
    match A::parse(s) {
        Err(e) => Err(e),
        Ok((a, n)) => match B::parse(s.subrange(n as int, s.len() as int)) {
            Err(e) => Err(e),
            Ok((b, k)) => Ok(((a, b), n + k)),
        },
    }
}

pub proof fn lemma_parse2_takes<A: TlsCodec, B: TlsCodec>(s: Seq<u8>)
    ensures
        parse2::<A, B>(s) matches Ok((m, n)) ==> 0 < n <= s.len(),
{
    A::lemma_parse_takes(s);
    if let Ok((a, n)) = A::parse(s) {
        B::lemma_parse_takes(s.subrange(n as int, s.len() as int));
    }
}

pub proof fn lemma_parse2_round_trip<A: TlsCodec, B: TlsCodec>(a: A::V, b: B::V, rest: Seq<u8>)
    requires
        A::valid(a),
        B::valid(b),
    ensures
        parse2::<A, B>(A::wire(a) + B::wire(b) + rest) == Ok::<((A::V, B::V), nat), CodecError>(
            ((a, b), A::wire(a).len() + B::wire(b).len()),
        ),
{
    let s = A::wire(a) + B::wire(b) + rest;
    assert(s =~= A::wire(a) + (B::wire(b) + rest));
    A::lemma_round_trip(a, B::wire(b) + rest);
    assert(s.subrange(A::wire(a).len() as int, s.len() as int) =~= B::wire(b) + rest);
    B::lemma_round_trip(b, rest);
}

/// Writes `a` and then `b`; fails with `LengthOverflow` exactly when one of
/// them cannot be encoded, leaving what `out` held in front.
pub fn serialize2<A: TlsCodec, B: TlsCodec>(a: &A, b: &B, out: &mut Vec<u8>) -> (r: Result<
    usize,
    CodecError,
>)
    ensures
        A::valid(a@) && B::valid(b@) ==> r == Ok::<usize, CodecError>(
            (A::wire(a@).len() + B::wire(b@).len()) as usize,
        ) && final(out)@ == old(out)@ + A::wire(a@) + B::wire(b@),
        !(A::valid(a@) && B::valid(b@)) ==> r == Err::<usize, CodecError>(
            CodecError::LengthOverflow,
        ) && final(out)@.len() >= old(out)@.len() && final(out)@.subrange(
            0,
            old(out)@.len() as int,
        ) == old(out)@,
{
    let ghost start = out@;
    let start_len = out.len();
    let n = match a.tls_serialize(out) {
        Ok(n) => n,
        Err(e) => {
            return Err(e);
        },
    };
    let ghost mid = out@;
    match b.tls_serialize(out) {
        Ok(k) => {
            let total = out.len() - start_len;
            assert(out@.len() == start.len() + A::wire(a@).len() + B::wire(b@).len());
            Ok(total)
        },
        Err(e) => {
            assert(out@.subrange(0, start.len() as int) =~= out@.subrange(0, mid.len() as int).subrange(
                0,
                start.len() as int,
            ));
            Err(e)
        },
    }
}

/// Reads an `A` at `pos` and then a `B` right after it, with the number of
/// bytes both took.
pub fn deserialize2<A: TlsCodec, B: TlsCodec>(buf: &[u8], pos: usize) -> (r: Result<
    (A, B, usize),
    CodecError,
>)
    requires
        pos <= buf@.len(),
    ensures
        match r {
            Ok((a, b, n)) => parse2::<A, B>(buf@.subrange(pos as int, buf@.len() as int)) == Ok::<
                ((A::V, B::V), nat),
                CodecError,
            >(((a@, b@), n as nat)),
            Err(e) => parse2::<A, B>(buf@.subrange(pos as int, buf@.len() as int)) == Err::<
                ((A::V, B::V), nat),
                CodecError,
            >(e),
        },
{
    let ghost s = buf@.subrange(pos as int, buf@.len() as int);
    let total = buf.len();
    let (a, n) = match A::tls_deserialize(buf, pos) {
        Ok(x) => x,
        Err(e) => {
            return Err(e);
        },
    };
    proof {
        A::lemma_parse_takes(s);
    }
    let (b, k) = match B::tls_deserialize(buf, pos + n) {
        Ok(x) => x,
        Err(e) => {
            assert(s.subrange(n as int, s.len() as int) =~= buf@.subrange(pos + n, buf@.len() as int));
            return Err(e);
        },
    };
    proof {
        assert(s.subrange(n as int, s.len() as int) =~= buf@.subrange(pos + n, buf@.len() as int));
        B::lemma_parse_takes(buf@.subrange(pos + n, buf@.len() as int));
    }
    Ok((a, b, n + k))
}

impl<A: TlsCodec, B: TlsCodec> TlsCodec for (A, B) {
    open spec fn valid(m: (A::V, B::V)) -> bool {
        A::valid(m.0) && B::valid(m.1)
    }

    open spec fn wire(m: (A::V, B::V)) -> Seq<u8> {
        A::wire(m.0) + B::wire(m.1)
    }

    open spec fn parse(s: Seq<u8>) -> Result<((A::V, B::V), nat), CodecError> {
        parse2::<A, B>(s)
    }

    proof fn lemma_parse_takes(s: Seq<u8>) {
        lemma_parse2_takes::<A, B>(s);
    }

    proof fn lemma_round_trip(m: (A::V, B::V), rest: Seq<u8>) {
        lemma_parse2_round_trip::<A, B>(m.0, m.1, rest);
        assert(A::wire(m.0) + B::wire(m.1) + rest =~= Self::wire(m) + rest);
    }

    fn tls_serialized_len(&self) -> (r: usize) {
        self.0.tls_serialized_len() + self.1.tls_serialized_len()
    }

    fn tls_serialize(&self, out: &mut Vec<u8>) -> (r: Result<usize, CodecError>) {
        let r = serialize2(&self.0, &self.1, out);
        assert(old(out)@ + A::wire(self.0@) + B::wire(self.1@) =~= old(out)@ + Self::wire(self@));
        r
    }

    fn tls_deserialize(buf: &[u8], pos: usize) -> (r: Result<((A, B), usize), CodecError>) {
        match deserialize2::<A, B>(buf, pos) {
            Ok((a, b, n)) => Ok(((a, b), n)),
            Err(e) => Err(e),
        }
    }
}

/// A fixed run of 32 bytes, with no length prefix.
impl TlsCodec for [u8; 32] {
    open spec fn valid(m: Seq<u8>) -> bool {
        m.len() == 32
    }

    open spec fn wire(m: Seq<u8>) -> Seq<u8> {
        m
    }

    open spec fn parse(s: Seq<u8>) -> Result<(Seq<u8>, nat), CodecError> {
        if s.len() < 32 {
            Err(CodecError::Truncated)
        } else {
            Ok((s.subrange(0, 32), 32))
        }
    }

    proof fn lemma_parse_takes(s: Seq<u8>) {
    }

    proof fn lemma_round_trip(m: Seq<u8>, rest: Seq<u8>) {
        assert((m + rest).subrange(0, 32) =~= m);
    }

    fn tls_serialized_len(&self) -> (r: usize) {
        32
    }

    fn tls_serialize(&self, out: &mut Vec<u8>) -> (r: Result<usize, CodecError>) {
        let ghost start = out@;
        let mut i: usize = 0;
        while i < 32
            invariant
                i <= 32,
                self@.len() == 32,
                out@ == start + self@.subrange(0, i as int),
            decreases 32 - i,
        {
            out.push(self[i]);
            i = i + 1;
            assert(out@ =~= start + self@.subrange(0, i as int));
        }
        assert(self@.subrange(0, 32) =~= self@);
        Ok(32)
    }

    fn tls_deserialize(buf: &[u8], pos: usize) -> (r: Result<([u8; 32], usize), CodecError>) {
        if buf.len() - pos < 32 {
            return Err(CodecError::Truncated);
        }
        let mut h: [u8; 32] = [0u8; 32];
        let mut i: usize = 0;
        while i < 32
            invariant
                i <= 32,
                pos + 32 <= buf.len(),
                h@.len() == 32,
                forall|j: int| 0 <= j < i ==> h@[j] == buf@[pos + j],
            decreases 32 - i,
        {
            h[i] = buf[pos + i];
            i = i + 1;
        }
        assert(h@ =~= buf@.subrange(pos as int, buf@.len() as int).subrange(0, 32));
        Ok((h, 32))
    }
}

} // verus!
