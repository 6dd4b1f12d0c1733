//! Behaviors derived from the element sequence of a [`SmolVec`]:
//! duplication, equality, lexicographic ordering, and the default value.
//!
//! Each is defined purely by the container's view. Equality and ordering are
//! stated through the element type's own comparison specifications, so what
//! `==` and `partial_cmp` return on containers is pinned down whenever it is
//! pinned down on the elements.

use core::cmp::Ordering;
use vstd::pervasive::cloned;
use vstd::prelude::*;
use vstd::std_specs::cmp::PartialEqSpec;
use vstd::std_specs::cmp::PartialOrdSpec;

use crate::container::SmolVec;
use crate::container::INLINE_CAPACITY;

verus! {

/// Pointwise equality of two element sequences under the element type's
/// equality specification: same length, and equal at every position.
pub open spec fn seq_eq_spec<T: PartialEq>(a: Seq<T>, b: Seq<T>) -> bool {
    &&& a.len() == b.len()
    &&& forall|i: int| 0 <= i < a.len() ==> #[trigger] a[i].eq_spec(&b[i])
}

/// Lexicographic comparison of two element sequences under the element
/// type's ordering specification. A sequence that runs out first orders
/// before the longer one; the first position whose elements are not equal
/// decides; elements the ordering cannot relate make the whole comparison
/// undecided.
pub open spec fn lex_cmp_spec<T: PartialOrd>(a: Seq<T>, b: Seq<T>) -> Option<Ordering>
    decreases a.len(),
{
    if a.len() == 0 && b.len() == 0 {
        Some(Ordering::Equal)
    } else if a.len() == 0 {
        Some(Ordering::Less)
    } else if b.len() == 0 {
        Some(Ordering::Greater)
    } else {
        match a[0].partial_cmp_spec(&b[0]) {
            Some(Ordering::Equal) => lex_cmp_spec(a.drop_first(), b.drop_first()),
            o => o,
        }
    }
}

impl<T: Clone> Clone for SmolVec<T> {
    /// Duplicates the container: a fresh container reserves capacity for
    /// the source's length, then receives a duplicate of each element in
    /// order. Each duplicate is whatever the element type's own `clone`
    /// returns for the source element.
    fn clone(&self) -> (res: Self)
        ensures
            res@.len() == self@.len(),
            forall|i: int| 0 <= i < self@.len() ==> cloned::<T>(self@[i], #[trigger] res@[i]),
            self@.len() <= INLINE_CAPACITY ==> res.spec_inline() && res.spec_capacity()
                == INLINE_CAPACITY,
            self@.len() > INLINE_CAPACITY ==> !res.spec_inline() && res.spec_capacity()
                == self@.len(),
    {
        let n = self.len();
        let mut res = SmolVec::<T>::with_capacity(n);
        let mut i: usize = 0;
        while i < n
            invariant
                n == self@.len(),
                i <= n,
                res@.len() == i,
                forall|j: int| 0 <= j < i ==> cloned::<T>(self@[j], #[trigger] res@[j]),
                n <= INLINE_CAPACITY ==> res.spec_capacity() == INLINE_CAPACITY,
                n > INLINE_CAPACITY ==> res.spec_capacity() == n,
                n <= INLINE_CAPACITY ==> res.spec_inline(),
                n > INLINE_CAPACITY ==> !res.spec_inline(),
            decreases n - i,
        {
            res.push(self.get(i).clone());
            i += 1;
        }
        res
    }
}

impl<T> Default for SmolVec<T> {
    /// The default container is the empty one, in inline mode.
    fn default() -> (v: Self)
        ensures
            v@ == Seq::<T>::empty(),
            v.spec_inline(),
            v.spec_capacity() == INLINE_CAPACITY,
    {
        SmolVec::new()
    }
}

impl<T: PartialEq> PartialEq for SmolVec<T> {
    /// Containers are equal exactly when their lengths match and their
    /// elements compare equal pairwise, in order.
    fn eq(&self, other: &Self) -> (r: bool) {
        let n = self.len();
        if n != other.len() {
            return false;
        }
        let mut i: usize = 0;
        while i < n
            invariant
                n == self@.len(),
                n == other@.len(),
                i <= n,
                T::obeys_eq_spec() ==> forall|j: int|
                    0 <= j < i ==> #[trigger] self@[j].eq_spec(&other@[j]),
            decreases n - i,
        {
            if !(self.get(i).eq(other.get(i))) {
                return false;
            }
            i += 1;
        }
        true
    }
}

impl<T: PartialEq> vstd::std_specs::cmp::PartialEqSpecImpl for SmolVec<T> {
    open spec fn obeys_eq_spec() -> bool {
        T::obeys_eq_spec()
    }

    open spec fn eq_spec(&self, other: &SmolVec<T>) -> bool {
        seq_eq_spec(self@, other@)
    }
}

impl<T: Eq> Eq for SmolVec<T> {
}

impl<T: PartialOrd> PartialOrd for SmolVec<T> {
    /// Lexicographic comparison over the element sequences: the first
    /// position whose elements differ decides, and a container whose
    /// elements are a strict prefix of the other's orders first.
    fn partial_cmp(&self, other: &Self) -> (r: Option<Ordering>) {
        let a_len = self.len();
        let b_len = other.len();
        let n = if a_len < b_len {
            a_len
        } else {
            b_len
        };
        let mut i: usize = 0;
        proof {
            assert(self@.skip(0) =~= self@);
            assert(other@.skip(0) =~= other@);
        }
        while i < n
            invariant
                a_len == self@.len(),
                b_len == other@.len(),
                n == if a_len < b_len { a_len as int } else { b_len as int },
                i <= n,
                T::obeys_partial_cmp_spec() ==> lex_cmp_spec(self@, other@) == lex_cmp_spec(
                    self@.skip(i as int),
                    other@.skip(i as int),
                ),
            decreases n - i,
        {
            let c = self.get(i).partial_cmp(other.get(i));
            match c {
                Some(Ordering::Equal) => {
                    proof {
                        if T::obeys_partial_cmp_spec() {
                            lemma_lex_cmp_spec_step(self@, other@, i as int);
                        }
                    }
                    i += 1;
                },
                _ => {
                    proof {
                        if T::obeys_partial_cmp_spec() {
                            lemma_lex_cmp_spec_decided(self@, other@, i as int, c);
                        }
                    }
                    return c;
                },
            }
        }
        proof {
            if T::obeys_partial_cmp_spec() {
                lemma_lex_cmp_spec_ends(self@, other@, i as int);
            }
        }
        if a_len == b_len {
            Some(Ordering::Equal)
        } else if a_len < b_len {
            Some(Ordering::Less)
        } else {
            Some(Ordering::Greater)
        }
    }
}

impl<T: PartialOrd> vstd::std_specs::cmp::PartialOrdSpecImpl for SmolVec<T> {
    open spec fn obeys_partial_cmp_spec() -> bool {
        T::obeys_partial_cmp_spec()
    }

    open spec fn partial_cmp_spec(&self, other: &SmolVec<T>) -> Option<Ordering> {
        lex_cmp_spec(self@, other@)
    }
}

/// When the elements at position `i` compare equal, the lexicographic
/// comparison of the suffixes from `i` agrees with the one from `i + 1`.
proof fn lemma_lex_cmp_spec_step<T: PartialOrd>(a: Seq<T>, b: Seq<T>, i: int)
    requires
        0 <= i < a.len(),
        0 <= i < b.len(),
        a[i].partial_cmp_spec(&b[i]) == Some(Ordering::Equal),
    ensures
        lex_cmp_spec(a.skip(i), b.skip(i)) == lex_cmp_spec(a.skip(i + 1), b.skip(i + 1)),
{
    assert(a.skip(i).drop_first() =~= a.skip(i + 1));
    assert(b.skip(i).drop_first() =~= b.skip(i + 1));
    assert(a.skip(i)[0] == a[i]);
    assert(b.skip(i)[0] == b[i]);
}

/// When the elements at position `i` do not compare equal, their comparison
/// decides the lexicographic comparison of the suffixes from `i`.
proof fn lemma_lex_cmp_spec_decided<T: PartialOrd>(a: Seq<T>, b: Seq<T>, i: int, c: Option<Ordering>)
    requires
        0 <= i < a.len(),
        0 <= i < b.len(),
        a[i].partial_cmp_spec(&b[i]) == c,
        c != Some(Ordering::Equal),
    ensures
        lex_cmp_spec(a.skip(i), b.skip(i)) == c,
{
    assert(a.skip(i)[0] == a[i]);
    assert(b.skip(i)[0] == b[i]);
}

/// Once one sequence has run out, the lexicographic comparison of the
/// remaining suffixes is decided by the lengths alone.
proof fn lemma_lex_cmp_spec_ends<T: PartialOrd>(a: Seq<T>, b: Seq<T>, i: int)
    requires
        0 <= i <= a.len(),
        0 <= i <= b.len(),
        i == a.len() || i == b.len(),
    ensures
        a.len() == b.len() ==> lex_cmp_spec(a.skip(i), b.skip(i)) == Some(Ordering::Equal),
        a.len() < b.len() ==> lex_cmp_spec(a.skip(i), b.skip(i)) == Some(Ordering::Less),
        a.len() > b.len() ==> lex_cmp_spec(a.skip(i), b.skip(i)) == Some(Ordering::Greater),
{
    assert(a.skip(i).len() == a.len() - i);
    assert(b.skip(i).len() == b.len() - i);
}

} // verus!
