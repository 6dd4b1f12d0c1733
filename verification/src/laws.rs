//! Laws relating the container's operations, stated over the same views and
//! spec functions that the operations' contracts use, and proved once and
//! for all.
//!
//! The iterated spec functions here ([`view_after_pushes`],
//! [`capacity_after_pushes`], [`inline_after_pushes`], [`view_after_pops`])
//! fold the per-operation contracts of [`SmolVec::push`] and
//! [`SmolVec::pop`] over a whole run of calls, so each law below speaks
//! about arbitrarily long runs of operations.

use core::cmp::Ordering;
use vstd::pervasive::cloned;
use vstd::prelude::*;
use vstd::std_specs::cmp::PartialEqSpec;
use vstd::std_specs::cmp::PartialOrdSpec;

use crate::container::capacity_after_push;
use crate::container::inline_after_push;
use crate::container::SmolVec;
use crate::container::INLINE_CAPACITY;
use crate::derived::lex_cmp_spec;

verus! {

/// The view a container reaches after pushing the elements of `vs`, in
/// order, onto a container whose view is `s`. Each step is exactly what
/// [`SmolVec::push`] ensures of the view.
pub open spec fn view_after_pushes<T>(s: Seq<T>, vs: Seq<T>) -> Seq<T>
    decreases vs.len(),
{
    if vs.len() == 0 {
        s
    } else {
        view_after_pushes(s.push(vs[0]), vs.drop_first())
    }
}

/// The view a container reaches after `k` pops from a container whose view
/// is `t`. Each step is exactly what [`SmolVec::pop`] ensures of the view:
/// the last element leaves, and an empty container is left unchanged.
pub open spec fn view_after_pops<T>(t: Seq<T>, k: nat) -> Seq<T>
    decreases k,
{
    if k == 0 {
        t
    } else {
        let prev = view_after_pops(t, (k - 1) as nat);
        if prev.len() > 0 {
            prev.drop_last()
        } else {
            prev
        }
    }
}

/// The capacity a container reports after `n` pushes onto a container with
/// capacity `cap` and `len` elements, folding the capacity clause of
/// [`SmolVec::push`].
pub open spec fn capacity_after_pushes(cap: int, len: int, n: nat) -> int
    decreases n,
{
    if n == 0 {
        cap
    } else {
        capacity_after_pushes(capacity_after_push(cap, len), len + 1, (n - 1) as nat)
    }
}

/// Whether a container still uses its inline block after `n` pushes onto a
/// container in mode `inline` with capacity `cap` and `len` elements,
/// folding the mode clause of [`SmolVec::push`].
pub open spec fn inline_after_pushes(inline: bool, cap: int, len: int, n: nat) -> bool
    decreases n,
{
    if n == 0 {
        inline
    } else {
        inline_after_pushes(
            inline_after_push(inline, cap, len),
            capacity_after_push(cap, len),
            len + 1,
            (n - 1) as nat,
        )
    }
}

/// Pushing a run of elements appends it: after pushing the elements of
/// `vs`, in order, onto a container whose view is `s`, the view is `s`
/// followed by `vs`.
pub proof fn lemma_pushes_append<T>(s: Seq<T>, vs: Seq<T>)
    ensures
        view_after_pushes(s, vs) == s + vs,
    decreases vs.len(),
{
    if vs.len() == 0 {
        assert(view_after_pushes(s, vs) =~= s + vs);
    } else {
        lemma_pushes_append(s.push(vs[0]), vs.drop_first());
        assert(s.push(vs[0]) + vs.drop_first() =~= s + vs);
    }
}

/// Popping `k` times from a container whose view is `t` leaves the first
/// `t.len() - k` elements in place.
proof fn lemma_pops_leave_prefix<T>(t: Seq<T>, k: nat)
    requires
        k <= t.len(),
    ensures
        view_after_pops(t, k) == t.take(t.len() - k),
    decreases k,
{
    if k == 0 {
        assert(t.take(t.len() as int) =~= t);
    } else {
        lemma_pops_leave_prefix(t, (k - 1) as nat);
        assert(t.take(t.len() - (k - 1)).drop_last() =~= t.take(t.len() - k));
    }
}

/// Pushes followed by pops are last-in, first-out. After pushing the
/// elements of `vs`, in order, onto an empty container, the container's
/// view is `vs`; the `k`-th subsequent pop (counting from zero) finds a
/// nonempty container and removes `vs[vs.len() - 1 - k]`, so the popped
/// values are the pushed values in reverse order; and after `vs.len()` pops
/// the container is empty.
pub proof fn lemma_lifo<T>(vs: Seq<T>, k: int)
    requires
        0 <= k < vs.len(),
    ensures
        view_after_pushes(Seq::<T>::empty(), vs) == vs,
        view_after_pops(vs, k as nat).len() == vs.len() - k,
        view_after_pops(vs, k as nat).last() == vs[vs.len() - 1 - k],
        view_after_pops(vs, (k + 1) as nat) == view_after_pops(vs, k as nat).drop_last(),
        view_after_pops(vs, vs.len()) == Seq::<T>::empty(),
{
    lemma_pushes_append(Seq::<T>::empty(), vs);
    assert(Seq::<T>::empty() + vs =~= vs);
    lemma_pops_leave_prefix(vs, k as nat);
    lemma_pops_leave_prefix(vs, (k + 1) as nat);
    lemma_pops_leave_prefix(vs, vs.len());
    assert(view_after_pops(vs, vs.len()) =~= Seq::<T>::empty());
    assert(view_after_pops(vs, (k + 1) as nat) =~= view_after_pops(vs, k as nat).drop_last());
}

/// While pushes still fit the capacity, no growth happens: the capacity and
/// the storage mode are unchanged by `n` pushes whenever `len + n <= cap`.
proof fn lemma_no_growth_while_room(inline: bool, cap: int, len: int, n: nat)
    requires
        len + n <= cap,
    ensures
        capacity_after_pushes(cap, len, n) == cap,
        inline_after_pushes(inline, cap, len, n) == inline,
    decreases n,
{
    if n > 0 {
        lemma_no_growth_while_room(inline, cap, len + 1, (n - 1) as nat);
    }
}

/// A fresh container takes no heap buffer for a small element count: after
/// `n <= INLINE_CAPACITY` pushes onto a new container, the container is
/// still in inline mode and its capacity is still `INLINE_CAPACITY`.
pub proof fn lemma_small_count_stays_inline(n: nat)
    requires
        n <= INLINE_CAPACITY,
    ensures
        inline_after_pushes(true, INLINE_CAPACITY as int, 0, n),
        capacity_after_pushes(INLINE_CAPACITY as int, 0, n) == INLINE_CAPACITY,
{
    lemma_no_growth_while_room(true, INLINE_CAPACITY as int, 0, n);
}

/// Filling the free slots and pushing once more doubles the capacity and
/// ends inline storage: after `cap - len + 1` pushes onto a container with
/// capacity `cap` and `len` elements, the capacity is `2 * cap` and the
/// container is in heap mode.
proof fn lemma_fill_then_spill(inline: bool, cap: int, len: int, n: nat)
    requires
        0 <= len <= cap,
        0 < cap,
        n == cap - len + 1,
    ensures
        capacity_after_pushes(cap, len, n) == 2 * cap,
        !inline_after_pushes(inline, cap, len, n),
    decreases n,
{
    if len < cap {
        lemma_fill_then_spill(inline, cap, len + 1, (n - 1) as nat);
    } else {
        lemma_no_growth_while_room(false, 2 * cap, len + 1, (n - 1) as nat);
    }
}

/// The push that exceeds the inline block moves the container to heap mode:
/// after `INLINE_CAPACITY + 1` pushes onto a new container, the container
/// is in heap mode with capacity `2 * INLINE_CAPACITY`, which covers all
/// `INLINE_CAPACITY + 1` elements; by [`lemma_pushes_append`] every pushed
/// element is still at its original position.
pub proof fn lemma_spill_on_overflow()
    ensures
        !inline_after_pushes(true, INLINE_CAPACITY as int, 0, (INLINE_CAPACITY + 1) as nat),
        capacity_after_pushes(INLINE_CAPACITY as int, 0, (INLINE_CAPACITY + 1) as nat) == 2
            * INLINE_CAPACITY,
        capacity_after_pushes(INLINE_CAPACITY as int, 0, (INLINE_CAPACITY + 1) as nat)
            >= INLINE_CAPACITY + 1,
{
    lemma_fill_then_spill(true, INLINE_CAPACITY as int, 0, (INLINE_CAPACITY + 1) as nat);
}

/// Containers holding the same element sequence are equal under the
/// container's equality specification, provided the element equality is
/// reflexive. (An element type whose equality is not reflexive can tell
/// two such containers apart, so reflexivity is assumed here.)
pub proof fn lemma_same_elements_eq<T: PartialEq>(a: &SmolVec<T>, b: &SmolVec<T>)
    requires
        a@ == b@,
        forall|x: T| #[trigger] x.eq_spec(&x),
    ensures
        a.eq_spec(b),
{
}

/// Containers of different lengths are never equal; in particular a
/// container stops being equal to its former peer once one extra element
/// is appended to it.
pub proof fn lemma_unequal_lengths_not_eq<T: PartialEq>(a: &SmolVec<T>, b: &SmolVec<T>)
    requires
        a@.len() != b@.len(),
    ensures
        !a.eq_spec(b),
{
}

/// A strict prefix orders first: when `a`'s elements equal `b`'s first
/// `a.len()` elements and `b` is longer, the lexicographic comparison
/// of `a` and `b` is `Less`.
pub proof fn lemma_strict_prefix_orders_first<T: PartialOrd>(a: Seq<T>, b: Seq<T>)
    requires
        a.len() < b.len(),
        forall|i: int| 0 <= i < a.len() ==> #[trigger] a[i].partial_cmp_spec(&b[i]) == Some(
            Ordering::Equal,
        ),
    ensures
        lex_cmp_spec(a, b) == Some(Ordering::Less),
    decreases a.len(),
{
    if a.len() > 0 {
        assert forall|i: int| 0 <= i < a.drop_first().len() implies #[trigger] a.drop_first()[i]
            .partial_cmp_spec(&b.drop_first()[i]) == Some(Ordering::Equal) by {
            assert(a[i + 1].partial_cmp_spec(&b[i + 1]) == Some(Ordering::Equal));
        }
        lemma_strict_prefix_orders_first(a.drop_first(), b.drop_first());
    }
}

/// The first position whose elements do not compare equal decides the
/// lexicographic comparison.
pub proof fn lemma_first_difference_decides<T: PartialOrd>(a: Seq<T>, b: Seq<T>, i: int)
    requires
        0 <= i < a.len(),
        0 <= i < b.len(),
        forall|j: int| 0 <= j < i ==> #[trigger] a[j].partial_cmp_spec(&b[j]) == Some(
            Ordering::Equal,
        ),
        a[i].partial_cmp_spec(&b[i]) != Some(Ordering::Equal),
    ensures
        lex_cmp_spec(a, b) == a[i].partial_cmp_spec(&b[i]),
    decreases i,
{
    if i == 0 {
    } else {
        assert(a[0].partial_cmp_spec(&b[0]) == Some(Ordering::Equal));
        assert forall|j: int| 0 <= j < i - 1 implies #[trigger] a.drop_first()[j].partial_cmp_spec(
            &b.drop_first()[j],
        ) == Some(Ordering::Equal) by {
            assert(a[j + 1].partial_cmp_spec(&b[j + 1]) == Some(Ordering::Equal));
        }
        assert(a.drop_first()[i - 1] == a[i]);
        assert(b.drop_first()[i - 1] == b[i]);
        lemma_first_difference_decides(a.drop_first(), b.drop_first(), i - 1);
    }
}

/// Round trip: rebuilding a container by pushing, in order, the elements
/// taken out of it restores exactly the original sequence. Together with
/// the contracts of [`SmolVec::into_vec`] and [`SmolVec::from_vec`], which
/// preserve the view in each direction, converting a container to an owned
/// vector and constructing a container from it again preserves length and
/// element order exactly.
pub proof fn lemma_rebuild_round_trip<T>(s: Seq<T>)
    ensures
        view_after_pushes(Seq::<T>::empty(), s) == s,
{
    lemma_pushes_append(Seq::<T>::empty(), s);
    assert(Seq::<T>::empty() + s =~= s);
}

/// For an element type whose `clone` hands back a value equal to its
/// input, a duplicate that clones every element (as [`SmolVec::clone`]
/// ensures) holds exactly the original element sequence.
pub proof fn lemma_exact_clone_preserves_elements<T: Clone>(a: Seq<T>, b: Seq<T>)
    requires
        a.len() == b.len(),
        forall|i: int| 0 <= i < a.len() ==> cloned::<T>(a[i], #[trigger] b[i]),
        forall|x: T, y: T| #[trigger] cloned::<T>(x, y) ==> x == y,
    ensures
        a == b,
{
    assert(a =~= b);
}

} // verus!
