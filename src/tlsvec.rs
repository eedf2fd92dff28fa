use vstd::prelude::*;
use crate::codec::TlsCodec;
use crate::error::CodecError;
use crate::vector::{
    deserialize_vec, lemma_vec_parse_takes, lemma_vec_round_trip, models, serialize_vec,
    serialized_length, vec_parse, vec_valid, vec_wire,
};
use crate::width::{Prefix16, Prefix24, PrefixWidth};

verus! {

/// An ordered sequence of `T` whose encoding is a three-byte length prefix,
/// stating the byte length of the content (not the number of elements),
/// followed by the encodings of the elements in order.
#[derive(PartialEq, Eq, Debug)]
pub struct TlsVec24<T> {
    vec: Vec<T>,
}

impl<T: Clone> Clone for TlsVec24<T> {
    fn clone(&self) -> (r: Self)
        ensures
            r.items().len() == self.items().len(),
    {
        TlsVec24 { vec: self.vec.clone() }
    }
}

impl<T> TlsVec24<T> {
    /// The elements, in order.
    pub closed spec fn items(&self) -> Seq<T> {
        self.vec@
    }
}

impl<T: View> View for TlsVec24<T> {
    type V = Seq<T::V>;

    open spec fn view(&self) -> Seq<T::V> {
        models(self.items())
    }
}

impl<T> From<Vec<T>> for TlsVec24<T> {
    fn from(v: Vec<T>) -> (r: Self)
        ensures
            r.items() == v@,
    {
        TlsVec24 { vec: v }
    }
}

impl<T> vstd::std_specs::convert::FromSpecImpl<Vec<T>> for TlsVec24<T> {
    open spec fn obeys_from_spec() -> bool {
        true
    }

    closed spec fn from_spec(v: Vec<T>) -> TlsVec24<T> {
        TlsVec24 { vec: v }
    }
}

impl<T> From<TlsVec24<T>> for Vec<T> {
    fn from(v: TlsVec24<T>) -> (r: Self)
        ensures
            r@ == v.items(),
    {
        v.vec
    }
}

impl<T> vstd::std_specs::convert::FromSpecImpl<TlsVec24<T>> for Vec<T> {
    open spec fn obeys_from_spec() -> bool {
        true
    }

    closed spec fn from_spec(v: TlsVec24<T>) -> Vec<T> {
        v.vec
    }
}

impl<T> Default for TlsVec24<T> {
    fn default() -> (r: Self)
        ensures
            r.items() == Seq::<T>::empty(),
    {
        TlsVec24 { vec: Vec::new() }
    }
}

/// A byte vector with a three-byte length prefix.
pub type TlsByteVec24 = TlsVec24<u8>;

impl<T: TlsCodec> TlsVec24<T> {
    /// The number of bytes of the encoding: the prefix and the encodings of
    /// the elements.
    pub fn tls_serialized_length(&self) -> (r: usize)
        requires
            <Self as TlsCodec>::wire(self@).len() <= usize::MAX,
        ensures
            r == <Self as TlsCodec>::wire(self@).len(),
    {
        serialized_length::<T, Prefix24>(&self.vec)
    }
}

impl<T: TlsCodec> TlsCodec for TlsVec24<T> {
    open spec fn valid(m: Seq<T::V>) -> bool {
        vec_valid::<T, Prefix24>(m)
    }

    open spec fn wire(m: Seq<T::V>) -> Seq<u8> {
        vec_wire::<T, Prefix24>(m)
    }

    open spec fn parse(s: Seq<u8>) -> Result<(Seq<T::V>, nat), CodecError> {
        vec_parse::<T, Prefix24>(s)
    }

    proof fn lemma_parse_takes(s: Seq<u8>) {
        lemma_vec_parse_takes::<T, Prefix24>(s);
    }

    proof fn lemma_round_trip(m: Seq<T::V>, rest: Seq<u8>) {
        lemma_vec_round_trip::<T, Prefix24>(m, rest);
    }

    fn tls_serialized_len(&self) -> (r: usize) {
        serialized_length::<T, Prefix24>(&self.vec)
    }

    fn tls_serialize(&self, out: &mut Vec<u8>) -> (r: Result<usize, CodecError>) {
        serialize_vec::<T, Prefix24>(&self.vec, out)
    }

    fn tls_deserialize(buf: &[u8], pos: usize) -> (r: Result<(TlsVec24<T>, usize), CodecError>) {
        match deserialize_vec::<T, Prefix24>(buf, pos) {
            Ok((vec, n)) => Ok((TlsVec24 { vec }, n)),
            Err(e) => Err(e),
        }
    }
}

/// The elements of `s` whose entry in `keep` is `true`, in order.
pub open spec fn select<T>(s: Seq<T>, keep: Seq<bool>) -> Seq<T>
    decreases s.len(),
{
    if s.len() == 0 {
        Seq::empty()
    } else {
        let p = select(s.drop_last(), keep.drop_last());
        if keep.last() {
            p.push(s.last())
        } else {
            p
        }
    }
}

impl<T> TlsVec24<T> {
    /// A vector holding the elements of `vec`.
    pub fn new(vec: Vec<T>) -> (r: Self)
        ensures
            r.items() == vec@,
    {
        TlsVec24 { vec }
    }

    /// A vector holding clones of the elements of `slice`.
    pub fn from_slice(slice: &[T]) -> (r: Self)
        where
            T: Clone,
        ensures
            r.items().len() == slice@.len(),
            forall|i: int| 0 <= i < slice@.len() ==> cloned::<T>(slice@[i], #[trigger] r.items()[i]),
    {
        let mut vec: Vec<T> = Vec::new();
        let mut i: usize = 0;
        while i < slice.len()
            invariant
                i <= slice@.len(),
                vec@.len() == i,
                forall|j: int| 0 <= j < i ==> cloned::<T>(slice@[j], #[trigger] vec@[j]),
            decreases slice@.len() - i,
        {
            vec.push(slice[i].clone());
            i = i + 1;
        }
        TlsVec24 { vec }
    }

    /// The number of elements.
    pub fn len(&self) -> (r: usize)
        ensures
            r == self.items().len(),
    {
        self.vec.len()
    }

    /// The elements as a slice.
    pub fn as_slice(&self) -> (r: &[T])
        ensures
            r@ == self.items(),
    {
        self.vec.as_slice()
    }

    /// Whether there are no elements.
    pub fn is_empty(&self) -> (r: bool)
        ensures
            r == (self.items().len() == 0),
    {
        self.vec.is_empty()
    }

    /// The elements, as a plain vector.
    pub fn into_vec(self) -> (r: Vec<T>)
        ensures
            r@ == self.items(),
    {
        self.vec
    }

    /// Appends `value` after the last element.
    pub fn push(&mut self, value: T)
        ensures
            final(self).items() == old(self).items().push(value),
    {
        self.vec.push(value);
    }

    /// Removes and returns the last element, if any.
    pub fn pop(&mut self) -> (r: Option<T>)
        ensures
            old(self).items().len() == 0 ==> r is None && final(self).items() == old(self).items(),
            old(self).items().len() > 0 ==> r == Some(old(self).items().last())
                && final(self).items() == old(self).items().drop_last(),
    {
        let r = self.vec.pop();
        proof {
            if old(self).items().len() > 0 {
                assert(old(self).items().drop_last() =~= old(self).items().subrange(
                    0,
                    old(self).items().len() - 1,
                ));
            }
        }
        r
    }

    /// Removes and returns the element at `index`, moving the later ones down.
    pub fn remove(&mut self, index: usize) -> (r: T)
        requires
            index < old(self).items().len(),
        ensures
            r == old(self).items()[index as int],
            final(self).items() == old(self).items().remove(index as int),
    {
        self.vec.remove(index)
    }

    /// The element at `index`, or `None` past the end.
    pub fn get(&self, index: usize) -> (r: Option<&T>)
        ensures
            index < self.items().len() ==> r == Some(&self.items()[index as int]),
            index >= self.items().len() ==> r is None,
    {
        if index < self.vec.len() {
            Some(&self.vec[index])
        } else {
            None
        }
    }

    /// An iterator over the elements, in order.
    pub fn iter(&self) -> (r: core::slice::Iter<'_, T>)
        ensures
            vstd::std_specs::slice::into_iter_elts(r) == self.items(),
    {
        let s = self.vec.as_slice();
        let r = s.iter();
        proof {
            broadcast use vstd::std_specs::slice::axiom_spec_slice_iter;
        }
        r
    }

    /// Keeps the elements for which `f` holds, in order, and drops the others.
    pub fn retain<F: Fn(&T) -> bool>(&mut self, f: F)
        requires
            forall|x: &T| #[trigger] f.requires((x,)),
        ensures
            exists|keep: Seq<bool>|
                {
                    &&& keep.len() == old(self).items().len()
                    &&& forall|i: int|
                        0 <= i < keep.len() ==> f.ensures((&old(self).items()[i],), #[trigger] keep[i])
                    &&& final(self).items() == select(old(self).items(), keep)
                },
    {
        let mut src: Vec<T> = Vec::new();
        core::mem::swap(&mut self.vec, &mut src);
        let ghost all = src@;
        let n = src.len();
        let mut rev: Vec<T> = Vec::new();
        while src.len() > 0
            invariant
                src@.len() + rev@.len() == n,
                n == all.len(),
                src@ == all.subrange(0, src@.len() as int),
                forall|j: int| 0 <= j < rev@.len() ==> #[trigger] rev@[j] == all[n - 1 - j],
            decreases src@.len(),
        {
            let x = src.pop().unwrap();
            rev.push(x);
        }
        let ghost keep: Seq<bool> = Seq::empty();
        let mut k: usize = 0;
        assert(all.subrange(0, 0) =~= Seq::<T>::empty());
        while rev.len() > 0
            invariant
                k + rev@.len() == n,
                n == all.len(),
                forall|j: int| 0 <= j < rev@.len() ==> #[trigger] rev@[j] == all[n - 1 - j],
                keep.len() == k,
                forall|i: int| 0 <= i < k ==> f.ensures((&all[i],), #[trigger] keep[i]),
                forall|x: &T| #[trigger] f.requires((x,)),
                self.vec@ == select(all.subrange(0, k as int), keep),
            decreases rev@.len(),
        {
            let x = rev.pop().unwrap();
            assert(x == all[k as int]);
            let b = f(&x);
            proof {
                let s1 = all.subrange(0, k + 1);
                assert(s1.drop_last() =~= all.subrange(0, k as int));
                assert(keep.push(b).drop_last() =~= keep);
                keep = keep.push(b);
            }
            if b {
                self.vec.push(x);
            }
            k = k + 1;
        }
        assert(all.subrange(0, n as int) =~= all);
    }

    /// The number of bytes of the length prefix.
    pub fn len_len() -> (r: usize)
        ensures
            r == Prefix24::width(),
    {
        Prefix24::bytes()
    }
}


/// An ordered sequence of `T` whose encoding is a two-byte length prefix,
/// stating the byte length of the content, followed by the encodings of the
/// elements in order.
#[derive(PartialEq, Eq, Debug)]
pub struct TlsVec16<T> {
    vec: Vec<T>,
}

impl<T: Clone> Clone for TlsVec16<T> {
    fn clone(&self) -> (r: Self)
        ensures
            r.items().len() == self.items().len(),
    {
        TlsVec16 { vec: self.vec.clone() }
    }
}

impl<T> TlsVec16<T> {
    /// The elements, in order.
    pub closed spec fn items(&self) -> Seq<T> {
        self.vec@
    }
}

impl<T: View> View for TlsVec16<T> {
    type V = Seq<T::V>;

    open spec fn view(&self) -> Seq<T::V> {
        models(self.items())
    }
}

impl<T> From<Vec<T>> for TlsVec16<T> {
    fn from(v: Vec<T>) -> (r: Self)
        ensures
            r.items() == v@,
    {
        TlsVec16 { vec: v }
    }
}

impl<T> vstd::std_specs::convert::FromSpecImpl<Vec<T>> for TlsVec16<T> {
    open spec fn obeys_from_spec() -> bool {
        true
    }

    closed spec fn from_spec(v: Vec<T>) -> TlsVec16<T> {
        TlsVec16 { vec: v }
    }
}

/// A byte vector with a two-byte length prefix.
pub type TlsByteVec16 = TlsVec16<u8>;

impl<T> TlsVec16<T> {
    /// A vector holding the elements of `vec`.
    pub fn new(vec: Vec<T>) -> (r: Self)
        ensures
            r.items() == vec@,
    {
        TlsVec16 { vec }
    }

    /// The number of elements.
    pub fn len(&self) -> (r: usize)
        ensures
            r == self.items().len(),
    {
        self.vec.len()
    }

    /// Whether there are no elements.
    pub fn is_empty(&self) -> (r: bool)
        ensures
            r == (self.items().len() == 0),
    {
        self.vec.is_empty()
    }

    /// The elements as a slice.
    pub fn as_slice(&self) -> (r: &[T])
        ensures
            r@ == self.items(),
    {
        self.vec.as_slice()
    }

    /// The elements, as a plain vector.
    pub fn into_vec(self) -> (r: Vec<T>)
        ensures
            r@ == self.items(),
    {
        self.vec
    }

    /// The number of bytes of the length prefix.
    pub fn len_len() -> (r: usize)
        ensures
            r == Prefix16::width(),
    {
        Prefix16::bytes()
    }
}

impl<T: TlsCodec> TlsCodec for TlsVec16<T> {
    open spec fn valid(m: Seq<T::V>) -> bool {
        vec_valid::<T, Prefix16>(m)
    }

    open spec fn wire(m: Seq<T::V>) -> Seq<u8> {
        vec_wire::<T, Prefix16>(m)
    }

    open spec fn parse(s: Seq<u8>) -> Result<(Seq<T::V>, nat), CodecError> {
        vec_parse::<T, Prefix16>(s)
    }

    proof fn lemma_parse_takes(s: Seq<u8>) {
        lemma_vec_parse_takes::<T, Prefix16>(s);
    }

    proof fn lemma_round_trip(m: Seq<T::V>, rest: Seq<u8>) {
        lemma_vec_round_trip::<T, Prefix16>(m, rest);
    }

    fn tls_serialized_len(&self) -> (r: usize) {
        serialized_length::<T, Prefix16>(&self.vec)
    }

    fn tls_serialize(&self, out: &mut Vec<u8>) -> (r: Result<usize, CodecError>) {
        serialize_vec::<T, Prefix16>(&self.vec, out)
    }

    fn tls_deserialize(buf: &[u8], pos: usize) -> (r: Result<(TlsVec16<T>, usize), CodecError>) {
        match deserialize_vec::<T, Prefix16>(buf, pos) {
            Ok((vec, n)) => Ok((TlsVec16 { vec }, n)),
            Err(e) => Err(e),
        }
    }
}

} // verus!
