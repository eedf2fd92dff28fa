use vstd::prelude::*;
use crate::error::CodecError;

verus! {

/// `256` to the power `n`: one more than the largest value of `n` bytes.
pub open spec fn pow256(n: nat) -> nat
    decreases n,
{
    if n == 0 {
        1
    } else {
        256 * pow256((n - 1) as nat)
    }
}

/// The number that the bytes `b` state, most significant byte first.
pub open spec fn be_value(b: Seq<u8>) -> nat
    decreases b.len(),
{
    if b.len() == 0 {
        0
    } else {
        be_value(b.drop_last()) * 256 + b.last() as nat
    }
}

/// The `n` bytes that state `v` most significant byte first.
pub open spec fn be_bytes(v: nat, n: nat) -> Seq<u8>
    decreases n,
{
    if n == 0 {
        Seq::empty()
    } else {
        be_bytes(v / 256, (n - 1) as nat).push((v % 256) as u8)
    }
}

pub proof fn lemma_pow256_positive(n: nat)
    ensures
        pow256(n) > 0,
    decreases n,
{
    if n > 0 {
        lemma_pow256_positive((n - 1) as nat);
    }
}

pub proof fn lemma_pow256_monotone(a: nat, b: nat)
    requires
        a <= b,
    ensures
        pow256(a) <= pow256(b),
    decreases b,
{
    if a < b {
        lemma_pow256_monotone(a, (b - 1) as nat);
        lemma_pow256_positive((b - 1) as nat);
    }
}

pub proof fn lemma_pow256_eight()
    ensures
        pow256(8) == 0x1_0000_0000_0000_0000,
{
    reveal_with_fuel(pow256, 9);
}

pub proof fn lemma_be_bytes_len(v: nat, n: nat)
    ensures
        be_bytes(v, n).len() == n,
    decreases n,
{
    if n > 0 {
        lemma_be_bytes_len(v / 256, (n - 1) as nat);
    }
}

pub proof fn lemma_be_value_bound(b: Seq<u8>)
    ensures
        be_value(b) < pow256(b.len()),
    decreases b.len(),
{
    if b.len() > 0 {
        lemma_be_value_bound(b.drop_last());
        let p = pow256((b.len() - 1) as nat);
        let v = be_value(b.drop_last());
        assert(v * 256 + (b.last() as nat) < p * 256) by (nonlinear_arith)
            requires
                v < p,
                b.last() < 256,
        ;
    }
}

/// Reading back the bytes of a value that fits gives the value.
pub proof fn lemma_be_round_trip(v: nat, n: nat)
    requires
        v < pow256(n),
    ensures
        be_value(be_bytes(v, n)) == v,
    decreases n,
{
    if n > 0 {
        let p = pow256((n - 1) as nat);
        assert(v / 256 < p) by (nonlinear_arith)
            requires
                v < 256 * p,
        ;
        lemma_be_round_trip(v / 256, (n - 1) as nat);
        let b = be_bytes(v, n);
        assert(b.drop_last() =~= be_bytes(v / 256, (n - 1) as nat));
    }
}

/// Writes `value` as `width` bytes, most significant byte first, at the end of `out`.
pub fn write_uint(value: u64, width: usize, out: &mut Vec<u8>)
    requires
        width <= 8,
        value < pow256(width as nat),
    ensures
        final(out)@ == old(out)@ + be_bytes(value as nat, width as nat),
{
    let mut bytes: Vec<u8> = Vec::new();
    let mut rest: u64 = value;
    let mut k: usize = width;
    while k > 0
        invariant
            k <= width,
            be_bytes(value as nat, width as nat) == be_bytes(rest as nat, k as nat) + bytes@,
        decreases k,
    {
        let byte = (rest % 256) as u8;
        proof {
            assert(be_bytes(rest as nat, k as nat) == be_bytes((rest / 256) as nat, (k - 1) as nat).push(byte));
            assert(be_bytes((rest / 256) as nat, (k - 1) as nat).push(byte) + bytes@
                =~= be_bytes((rest / 256) as nat, (k - 1) as nat) + seq![byte].add(bytes@));
        }
        bytes.insert(0, byte);
        rest = rest / 256;
        k = k - 1;
    }
    assert(bytes@ =~= be_bytes(value as nat, width as nat));
    let mut i: usize = 0;
    let ghost start = out@;
    while i < bytes.len()
        invariant
            i <= bytes@.len(),
            out@ == start + bytes@.subrange(0, i as int),
        decreases bytes@.len() - i,
    {
        out.push(bytes[i]);
        i = i + 1;
        assert(out@ =~= start + bytes@.subrange(0, i as int));
    }
    assert(bytes@.subrange(0, i as int) =~= bytes@);
}

/// Reads a `width`-byte big-endian number from `buf` at `pos`.
pub fn read_uint(buf: &[u8], pos: usize, width: usize) -> (r: Result<u64, CodecError>)
    requires
        width <= 8,
        pos <= buf@.len(),
    ensures
        buf@.len() - pos < width ==> r == Err::<u64, CodecError>(CodecError::Truncated),
        buf@.len() - pos >= width ==> (r matches Ok(v) && v as nat == be_value(
            buf@.subrange(pos as int, pos + width),
        )),
        r matches Ok(v) ==> (v as nat) < pow256(width as nat),
{
    if buf.len() - pos < width {
        return Err(CodecError::Truncated);
    }
    let mut acc: u64 = 0;
    let mut i: usize = 0;
    while i < width
        invariant
            i <= width <= 8,
            pos + width <= buf.len(),
            acc as nat == be_value(buf@.subrange(pos as int, pos + i)),
        decreases width - i,
    {
        let ghost prefix = buf@.subrange(pos as int, pos + i);
        let ghost next = buf@.subrange(pos as int, pos + i + 1);
        proof {
            lemma_be_value_bound(prefix);
            lemma_pow256_monotone(i as nat, 7);
            reveal_with_fuel(pow256, 8);
            assert(next.drop_last() =~= prefix);
        }
        acc = acc * 256 + buf[pos + i] as u64;
        i = i + 1;
    }
    proof {
        lemma_be_value_bound(buf@.subrange(pos as int, pos + width));
    }
    Ok(acc)
}

} // verus!
