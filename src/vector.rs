use vstd::prelude::*;
use crate::codec::{parse_uint, uint_at, TlsCodec};
use crate::error::CodecError;
use crate::uint::{be_bytes, pow256, write_uint};
use crate::width::{max_content, PrefixWidth};

verus! {

/// The models of the values `s`, in order.
pub open spec fn models<T: View>(s: Seq<T>) -> Seq<T::V> {
    s.map_values(|t: T| t@)
}


/// The concatenated encodings of the models `s`, in order.
pub open spec fn seq_wire<T: TlsCodec>(s: Seq<T::V>) -> Seq<u8>
    decreases s.len(),
{
    if s.len() == 0 {
        Seq::empty()
    } else {
        T::wire(s[0]) + seq_wire::<T>(s.drop_first())
    }
}

/// Whether every model of `s` can be encoded.
pub open spec fn seq_valid<T: TlsCodec>(s: Seq<T::V>) -> bool {
    forall|i: int| 0 <= i < s.len() ==> T::valid(#[trigger] s[i])
}

/// Reads elements from the front of `s` until exactly `budget` bytes are
/// taken. An element that would take more than what is left of the budget
/// is `Malformed`.
pub open spec fn parse_items<T: TlsCodec>(s: Seq<u8>, budget: nat) -> Result<
    Seq<T::V>,
    CodecError,
>
    decreases budget,
{
    if budget == 0 {
        Ok(Seq::empty())
    } else {
        match T::parse(s) {
            Err(e) => Err(e),
            Ok((m, n)) => if n == 0 || n > budget {
                Err(CodecError::Malformed)
            } else {
                match parse_items::<T>(s.subrange(n as int, s.len() as int), (budget - n) as nat) {
                    Ok(rest) => Ok(seq![m] + rest),
                    Err(e) => Err(e),
                }
            },
        }
    }
}

/// `r` with the models `a` in front of what it read.
pub open spec fn prepend<V>(a: Seq<V>, r: Result<Seq<V>, CodecError>) -> Result<
    Seq<V>,
    CodecError,
> {
    match r {
        Ok(b) => Ok(a + b),
        Err(e) => Err(e),
    }
}

pub proof fn lemma_seq_wire_concat<T: TlsCodec>(a: Seq<T::V>, b: Seq<T::V>)
    ensures
        seq_wire::<T>(a + b) == seq_wire::<T>(a) + seq_wire::<T>(b),
    decreases a.len(),
{
    if a.len() == 0 {
        assert(a + b =~= b);
        assert(seq_wire::<T>(a) + seq_wire::<T>(b) =~= seq_wire::<T>(b));
    } else {
        assert((a + b).drop_first() =~= a.drop_first() + b);
        lemma_seq_wire_concat::<T>(a.drop_first(), b);
        assert(seq_wire::<T>(a + b) =~= seq_wire::<T>(a) + seq_wire::<T>(b));
    }
}

pub proof fn lemma_seq_wire_push<T: TlsCodec>(a: Seq<T::V>, x: T::V)
    ensures
        seq_wire::<T>(a.push(x)) == seq_wire::<T>(a) + T::wire(x),
{
    lemma_seq_wire_concat::<T>(a, seq![x]);
    assert(a + seq![x] =~= a.push(x));
    assert(seq![x].drop_first() =~= Seq::<T::V>::empty());
    assert(seq_wire::<T>(seq![x]) == T::wire(x) + seq_wire::<T>(seq![x].drop_first()));
    assert(T::wire(x) + Seq::<u8>::empty() =~= T::wire(x));
}

/// Reading the concatenated encodings of valid models, with exactly their
/// length as the budget, gives back the models.
pub proof fn lemma_items_round_trip<T: TlsCodec>(m: Seq<T::V>, rest: Seq<u8>)
    requires
        seq_valid::<T>(m),
    ensures
        parse_items::<T>(seq_wire::<T>(m) + rest, seq_wire::<T>(m).len()) == Ok::<
            Seq<T::V>,
            CodecError,
        >(m),
    decreases m.len(),
{
    if m.len() == 0 {
        assert(m =~= Seq::<T::V>::empty());
    } else {
        let tail = m.drop_first();
        let tw = seq_wire::<T>(tail);
        let head = T::wire(m[0]);
        assert(T::valid(m[0]));
        assert(seq_valid::<T>(tail)) by {
            assert forall|i: int| 0 <= i < tail.len() implies T::valid(#[trigger] tail[i]) by {
                assert(tail[i] == m[i + 1]);
            }
        }
        T::lemma_round_trip(m[0], tw + rest);
        assert(seq_wire::<T>(m) + rest =~= head + (tw + rest));
        T::lemma_parse_takes(head + (tw + rest));
        lemma_items_round_trip::<T>(tail, rest);
        assert((seq_wire::<T>(m) + rest).subrange(head.len() as int, (seq_wire::<T>(m) + rest).len() as int)
            =~= tw + rest);
        assert(seq![m[0]] + tail =~= m);
    }
}

/// The largest content length of a `W` prefix, for exec code.
fn max_content_exec<W: PrefixWidth>() -> (r: u64)
    ensures
        r as nat == max_content::<W>(),
{
    proof {
        W::lemma_width();
    }
    let w = W::bytes();
    let mut p: u64 = 1;
    let mut k: usize = 0;
    while k < w
        invariant
            k <= w <= 4,
            w == W::width(),
            p as nat == pow256(k as nat),
            p >= 1,
        decreases w - k,
    {
        proof {
            crate::uint::lemma_pow256_monotone(k as nat, 3);
            reveal_with_fuel(pow256, 4);
        }
        p = p * 256;
        k = k + 1;
    }
    p - 1
}

/// Whether the models `m` can be encoded as a vector with a `W` prefix:
/// each element can, and their encodings fit the prefix.
pub open spec fn vec_valid<T: TlsCodec, W: PrefixWidth>(m: Seq<T::V>) -> bool {
    seq_valid::<T>(m) && seq_wire::<T>(m).len() <= max_content::<W>()
}

/// The encoding of a vector: a `W` prefix stating the byte length of the
/// content, then the encodings of the elements in order.
pub open spec fn vec_wire<T: TlsCodec, W: PrefixWidth>(m: Seq<T::V>) -> Seq<u8> {
    be_bytes(seq_wire::<T>(m).len(), W::width()) + seq_wire::<T>(m)
}

/// Reads a vector with a `W` prefix from the front of `s`.
pub open spec fn vec_parse<T: TlsCodec, W: PrefixWidth>(s: Seq<u8>) -> Result<(Seq<T::V>, nat), CodecError> {
    match parse_uint(s, W::width()) {
        Err(e) => Err(e),
        Ok((len, w)) => if s.len() - w < len {
            Err(CodecError::Truncated)
        } else {
            match parse_items::<T>(s.subrange(w as int, s.len() as int), len) {
                Ok(items) => Ok((items, w + len)),
                Err(e) => Err(e),
            }
        },
    }
}

pub proof fn lemma_vec_parse_takes<T: TlsCodec, W: PrefixWidth>(s: Seq<u8>)
    ensures
        vec_parse::<T, W>(s) matches Ok((m, n)) ==> 0 < n <= s.len(),
{
    W::lemma_width();
}


/// Reading the encoding of valid models gives them back, whatever follows.
pub proof fn lemma_vec_round_trip<T: TlsCodec, W: PrefixWidth>(m: Seq<T::V>, rest: Seq<u8>)
    requires
        vec_valid::<T, W>(m),
    ensures
        vec_parse::<T, W>(vec_wire::<T, W>(m) + rest) == Ok::<(Seq<T::V>, nat), CodecError>(
            (m, vec_wire::<T, W>(m).len()),
        ),
{
    let c = seq_wire::<T>(m);
    let w = W::width();
    W::lemma_width();
    crate::uint::lemma_pow256_positive(w);
    crate::uint::lemma_be_bytes_len(c.len(), w);
    let s = vec_wire::<T, W>(m) + rest;
    assert(s =~= be_bytes(c.len(), w) + (c + rest));
    crate::codec::lemma_uint_round_trip(c.len(), w, c + rest);
    assert(s.subrange(w as int, s.len() as int) =~= c + rest);
    lemma_items_round_trip::<T>(m, rest);
}


/// The number of bytes of the encoding of `items` with a `W` prefix.
pub fn serialized_length<T: TlsCodec, W: PrefixWidth>(items: &Vec<T>) -> (r: usize)
    requires
        vec_wire::<T, W>(models(items@)).len() <= usize::MAX,
    ensures
        r == vec_wire::<T, W>(models(items@)).len(),
{
    proof {
        W::lemma_width();
    }
    let ghost m = models(items@);
    let mut total: usize = W::bytes();
    let mut i: usize = 0;
    proof {
        crate::uint::lemma_be_bytes_len(seq_wire::<T>(m).len(), W::width());
        assert(m.subrange(0, 0) =~= Seq::<T::V>::empty());
    }
    while i < items.len()
        invariant
            i <= items@.len(),
            m == models(items@),
            m.len() == items@.len(),
            W::width() + seq_wire::<T>(m).len() <= usize::MAX,
            total == W::width() + seq_wire::<T>(m.subrange(0, i as int)).len(),
        decreases items@.len() - i,
    {
        proof {
            assert(m.subrange(0, i + 1) =~= m.subrange(0, i as int).push(m[i as int]));
            lemma_seq_wire_push::<T>(m.subrange(0, i as int), m[i as int]);
            lemma_seq_wire_concat::<T>(m.subrange(0, i + 1), m.subrange(i + 1, m.len() as int));
            assert(m.subrange(0, i + 1) + m.subrange(i + 1, m.len() as int) =~= m);
            assert(items@[i as int]@ == m[i as int]);
        }
        let n = items[i].tls_serialized_len();
        total = total + n;
        i = i + 1;
    }
    assert(m.subrange(0, i as int) =~= m);
    total
}


/// Appends the encoding of `items` with a `W` prefix to `out`; fails with
/// `LengthOverflow` exactly when they cannot be encoded, leaving what `out`
/// held in front.
pub fn serialize_vec<T: TlsCodec, W: PrefixWidth>(items: &Vec<T>, out: &mut Vec<u8>) -> (r: Result<
    usize,
    CodecError,
>)
    ensures
        vec_valid::<T, W>(models(items@)) ==> r == Ok::<usize, CodecError>(
            vec_wire::<T, W>(models(items@)).len() as usize,
        ) && final(out)@ == old(out)@ + vec_wire::<T, W>(models(items@)),
        !vec_valid::<T, W>(models(items@)) ==> r == Err::<usize, CodecError>(
            CodecError::LengthOverflow,
        ) && final(out)@.len() >= old(out)@.len() && final(out)@.subrange(
            0,
            old(out)@.len() as int,
        ) == old(out)@,
{
    let ghost m = models(items@);
    let mut content: Vec<u8> = Vec::new();
    let mut i: usize = 0;
    assert(m.subrange(0, 0) =~= Seq::<T::V>::empty());
    while i < items.len()
        invariant
            i <= items@.len(),
            m == models(items@),
            m.len() == items@.len(),
            content@ == seq_wire::<T>(m.subrange(0, i as int)),
            seq_valid::<T>(m.subrange(0, i as int)),
        decreases items@.len() - i,
    {
        assert(items@[i as int]@ == m[i as int]);
        match items[i].tls_serialize(&mut content) {
            Ok(_) => {},
            Err(e) => {
                assert(!seq_valid::<T>(m));
                return Err(e);
            },
        }
        proof {
            assert(m.subrange(0, i + 1) =~= m.subrange(0, i as int).push(m[i as int]));
            lemma_seq_wire_push::<T>(m.subrange(0, i as int), m[i as int]);
            assert(seq_valid::<T>(m.subrange(0, i + 1))) by {
                assert forall|j: int| 0 <= j < i + 1 implies T::valid(
                    #[trigger] m.subrange(0, i + 1)[j],
                ) by {
                    if j < i {
                        assert(m.subrange(0, i + 1)[j] == m.subrange(0, i as int)[j]);
                    }
                }
            }
        }
        i = i + 1;
    }
    assert(m.subrange(0, i as int) =~= m);
    let max = max_content_exec::<W>();
    if content.len() as u64 > max {
        return Err(CodecError::LengthOverflow);
    }
    proof {
        W::lemma_width();
        crate::uint::lemma_be_bytes_len(content@.len(), W::width());
        crate::uint::lemma_pow256_positive(W::width());
        assert(content@.len() < pow256(W::width()));
    }
    let start = out.len();
    write_uint(content.len() as u64, W::bytes(), out);
    out.append(&mut content);
    Ok(out.len() - start)
}


/// Reads a vector with a `W` prefix from `buf` at `pos`: its elements and
/// the number of bytes it took.
pub fn deserialize_vec<T: TlsCodec, W: PrefixWidth>(buf: &[u8], pos: usize) -> (r: Result<(Vec<T>, usize), CodecError>)
    requires
        pos <= buf@.len(),
    ensures
        match r {
            Ok((v, n)) => vec_parse::<T, W>(buf@.subrange(pos as int, buf@.len() as int)) == Ok::<
                (Seq<T::V>, nat),
                CodecError,
            >((models(v@), n as nat)),
            Err(e) => vec_parse::<T, W>(buf@.subrange(pos as int, buf@.len() as int)) == Err::<
                (Seq<T::V>, nat),
                CodecError,
            >(e),
        },
{
    proof {
        W::lemma_width();
    }
    let w = W::bytes();
    let ghost s = buf@.subrange(pos as int, buf@.len() as int);
    let len: u64 = match uint_at(buf, pos, w) {
        Ok((v, _)) => v,
        Err(e) => {
            return Err(e);
        },
    };
    let avail: usize = buf.len() - pos - w;
    if (avail as u64) < len {
        return Err(CodecError::Truncated);
    }
    assert(parse_uint(s, w as nat) == Ok::<(nat, nat), CodecError>((len as nat, w as nat)));
    let len: usize = len as usize;
    let start: usize = pos + w;
    let ghost body = buf@.subrange(start as int, buf@.len() as int);
    assert(s.subrange(w as int, s.len() as int) =~= body);
    let ghost whole = match parse_items::<T>(body, len as nat) {
        Ok(found) => Ok::<(Seq<T::V>, nat), CodecError>((found, (w + len) as nat)),
        Err(e) => Err::<(Seq<T::V>, nat), CodecError>(e),
    };
    assert(vec_parse::<T, W>(s) == whole);
    let mut items: Vec<T> = Vec::new();
    let mut cur: usize = start;
    while cur - start < len
        invariant
            start <= cur <= start + len <= buf@.len(),
            start + len <= buf.len(),
            body == buf@.subrange(start as int, buf@.len() as int),
            s == buf@.subrange(pos as int, buf@.len() as int),
            vec_parse::<T, W>(s) == whole,
            whole == match parse_items::<T>(body, len as nat) {
                Ok(found) => Ok::<(Seq<T::V>, nat), CodecError>((found, (w + len) as nat)),
                Err(e) => Err::<(Seq<T::V>, nat), CodecError>(e),
            },
            parse_items::<T>(body, len as nat) == prepend(
                models(items@),
                parse_items::<T>(
                    buf@.subrange(cur as int, buf@.len() as int),
                    (len - (cur - start)) as nat,
                ),
            ),
        decreases len - (cur - start),
    {
        let ghost rest = buf@.subrange(cur as int, buf@.len() as int);
        let ghost budget = (len - (cur - start)) as nat;
        match T::tls_deserialize(buf, cur) {
            Err(e) => {
                assert(parse_items::<T>(rest, budget) == Err::<Seq<T::V>, CodecError>(e));
                return Err(e);
            },
            Ok((v, n)) => {
                proof {
                    T::lemma_parse_takes(rest);
                }
                if n > len - (cur - start) {
                    assert(parse_items::<T>(rest, budget) == Err::<Seq<T::V>, CodecError>(
                        CodecError::Malformed,
                    ));
                    return Err(CodecError::Malformed);
                }
                let ghost before = models(items@);
                items.push(v);
                proof {
                    assert(models(items@) =~= before + seq![v@]);
                    assert(rest.subrange(n as int, rest.len() as int)
                        =~= buf@.subrange(cur + n, buf@.len() as int));
                    match parse_items::<T>(buf@.subrange(cur + n, buf@.len() as int), (budget - n) as nat) {
                        Ok(tail) => {
                            assert(before + (seq![v@] + tail) =~= (before + seq![v@]) + tail);
                        },
                        Err(_) => {},
                    }
                }
                cur = cur + n;
            },
        }
    }
        assert(models(items@) + Seq::<T::V>::empty() =~= models(items@));
    Ok((items, w + len))
}

} // verus!
