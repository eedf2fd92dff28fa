use vstd::prelude::*;
use crate::uint::pow256;

verus! {

/// The byte width of a vector's length prefix, fixed by the vector's type.
pub trait PrefixWidth {
    /// The number of prefix bytes.
    spec fn width() -> nat;

    proof fn lemma_width()
        ensures
            1 <= Self::width() <= 4,
    ;

    /// The number of prefix bytes, for exec code.
    fn bytes() -> (r: usize)
        ensures
            r == Self::width(),
    ;
}

/// The largest content length that a prefix of `W` can state.
pub open spec fn max_content<W: PrefixWidth>() -> nat {
    (pow256(W::width()) - 1) as nat
}

/// A one-byte length prefix (content up to 255 bytes).
#[derive(Clone, Copy, PartialEq, Eq, Debug)]
pub struct Prefix8;

/// A two-byte length prefix (content up to 65,535 bytes).
#[derive(Clone, Copy, PartialEq, Eq, Debug)]
pub struct Prefix16;

/// A three-byte length prefix (content up to 16,777,215 bytes).
#[derive(Clone, Copy, PartialEq, Eq, Debug)]
pub struct Prefix24;

/// A four-byte length prefix (content up to 4,294,967,295 bytes).
#[derive(Clone, Copy, PartialEq, Eq, Debug)]
pub struct Prefix32;

impl PrefixWidth for Prefix8 {
    open spec fn width() -> nat {
        1
    }

    proof fn lemma_width() {
    }

    fn bytes() -> (r: usize) {
        1
    }
}

impl PrefixWidth for Prefix16 {
    open spec fn width() -> nat {
        2
    }

    proof fn lemma_width() {
    }

    fn bytes() -> (r: usize) {
        2
    }
}

impl PrefixWidth for Prefix24 {
    open spec fn width() -> nat {
        3
    }

    proof fn lemma_width() {
    }

    fn bytes() -> (r: usize) {
        3
    }
}

impl PrefixWidth for Prefix32 {
    open spec fn width() -> nat {
        4
    }

    proof fn lemma_width() {
    }

    fn bytes() -> (r: usize) {
        4
    }
}

/// The largest content length of a three-byte prefix.
pub proof fn lemma_max_content_24()
    ensures
        max_content::<Prefix24>() == 16_777_215,
{
    reveal_with_fuel(pow256, 4);
}

} // verus!
