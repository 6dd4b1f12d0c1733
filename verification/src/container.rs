//! The storage representation and growth engine of [`SmolVec`].
//!
//! The container keeps its elements either in a fixed block of slots that
//! lives inside the container itself (inline storage) or in a heap-backed
//! buffer with an explicitly tracked capacity. Exactly one layout is active
//! at a time; growth moves one way, from inline to heap, and a heap buffer
//! only ever gets larger.

use vstd::prelude::*;

verus! {

/// Number of elements the inline block can hold before the container moves
/// its elements to a heap buffer.
pub const INLINE_CAPACITY: usize = 16;

/// The active storage layout: an inline block of slots, or a heap buffer
/// with its capacity recorded beside it.
#[derive(Debug)]
pub(crate) enum Data<T> {
    /// A fixed block of slots embedded in the container. A slot at an index
    /// below the container's length holds a live element; slots at or above
    /// it are logically absent and are never read as values.
    Inline([Option<T>; INLINE_CAPACITY]),
    /// A heap-backed buffer of live elements, together with the capacity the
    /// container has reserved. The buffer holds exactly the live elements;
    /// `capacity` records how many slots the container has promised to hold
    /// without growing again.
    Heap { buf: Vec<T>, capacity: usize },
}

impl<T> Data<T> {
    /// How many elements the active layout can hold before growing.
    pub(crate) open spec fn cap(&self) -> usize {
        match self {
            Data::Inline(_) => INLINE_CAPACITY,
            Data::Heap { capacity, .. } => *capacity,
        }
    }

    /// The layout is consistent with a container of `len` live elements:
    /// every slot below `len` is materialized, every inline slot at or above
    /// `len` is logically absent (so nothing is ever destructed twice), `len`
    /// fits the capacity, and a heap buffer holds exactly the live elements
    /// under a capacity that outgrew the inline block.
    pub(crate) open spec fn valid(&self, len: usize) -> bool {
        match self {
            Data::Inline(arr) => {
                &&& len <= INLINE_CAPACITY
                &&& forall|i: int| 0 <= i < len ==> arr@[i] is Some
                &&& forall|i: int| len <= i < INLINE_CAPACITY ==> arr@[i] is None
            },
            Data::Heap { buf, capacity } => {
                &&& buf@.len() == len
                &&& len <= *capacity
                &&& INLINE_CAPACITY < *capacity
            },
        }
    }

    /// The live elements, in order, of a layout holding `len` of them.
    pub(crate) open spec fn elems(&self, len: usize) -> Seq<T> {
        match self {
            Data::Inline(arr) => Seq::new(len as nat, |i: int| arr@[i].unwrap()),
            Data::Heap { buf, .. } => buf@,
        }
    }

    /// The growth engine: trades a full layout for a heap layout of twice
    /// the capacity holding the same `len` elements at the same positions.
    /// The inline block's elements move into the fresh buffer one by one;
    /// a heap buffer keeps its elements and doubles its recorded capacity.
    fn into_grown(self, len: usize) -> (r: Data<T>)
        requires
            self.valid(len),
            len == self.cap(),
            self.cap() <= usize::MAX / 2,
        ensures
            r.valid(len),
            r.elems(len) == self.elems(len),
            r is Heap,
            r.cap() == 2 * self.cap(),
    {
        let ghost orig = self.elems(len);
        match self {
            Data::Heap { buf, capacity } => {
                Data::Heap { buf, capacity: capacity * 2 }
            },
            Data::Inline(arr) => {
                let mut arr = arr;
                let mut buf: Vec<T> = Vec::new();
                let mut i: usize = 0;
                while i < len
                    invariant
                        i <= len,
                        len == INLINE_CAPACITY,
                        forall|j: int| i <= j < len ==> (#[trigger] arr@[j]) is Some,
                        forall|j: int| i <= j < len ==> (#[trigger] arr@[j]).unwrap() == orig[j],
                        orig.len() == len,
                        buf@.len() == i,
                        forall|j: int| 0 <= j < i ==> buf@[j] == orig[j],
                    decreases len - i,
                {
                    let slot = arr[i].take();
                    buf.push(slot.unwrap());
                    i += 1;
                }
                let grown = Data::Heap { buf, capacity: 2 * INLINE_CAPACITY };
                proof {
                    assert(grown.elems(len) =~= orig);
                }
                grown
            },
        }
    }
}

/// The capacity a container reports after one push onto a container with
/// the given capacity and element count: unchanged while a free slot
/// remains, doubled by the growth engine when the container was full.
pub open spec fn capacity_after_push(cap: int, len: int) -> int {
    if len < cap {
        cap
    } else {
        2 * cap
    }
}

/// Whether a container still uses its inline block after one push: it does
/// exactly when it did before and no growth was needed. Growth is one-way;
/// a container never returns to inline storage.
pub open spec fn inline_after_push(inline: bool, cap: int, len: int) -> bool {
    inline && len < cap
}

/// A fresh inline block with every slot logically absent.
fn empty_slots<T>() -> (arr: [Option<T>; INLINE_CAPACITY])
    ensures
        forall|i: int| 0 <= i < INLINE_CAPACITY ==> arr@[i] is None,
{
    [
        None, None, None, None, None, None, None, None,
        None, None, None, None, None, None, None, None,
    ]
}

/// A growable sequence container that stores up to [`INLINE_CAPACITY`]
/// elements inline and spills to a heap buffer beyond that.
///
/// Its view (`self@`) is the sequence of live elements, oldest first.
#[derive(Debug)]
pub struct SmolVec<T> {
    len: usize,
    data: Data<T>,
}

impl<T> View for SmolVec<T> {
    type V = Seq<T>;

    closed spec fn view(&self) -> Seq<T> {
        self.data.elems(self.len)
    }
}

impl<T> SmolVec<T> {
    /// Every container holds a count of live elements that its active layout
    /// can actually account for.
    #[verifier::type_invariant]
    spec fn wf(self) -> bool {
        self.data.valid(self.len)
    }

    /// Whether the elements currently live in the inline block.
    pub closed spec fn spec_inline(&self) -> bool {
        self.data is Inline
    }

    /// How many elements the container can hold before growing.
    pub closed spec fn spec_capacity(&self) -> usize {
        self.data.cap()
    }

    /// Creates an empty container in inline mode, with no heap allocation.
    pub fn new() -> (v: Self)
        ensures
            v@ == Seq::<T>::empty(),
            v.spec_inline(),
            v.spec_capacity() == INLINE_CAPACITY,
    {
        let v = SmolVec { len: 0, data: Data::Inline(empty_slots()) };
        proof {
            assert(v@ =~= Seq::<T>::empty());
        }
        v
    }

    /// Returns the number of live elements.
    pub fn len(&self) -> (n: usize)
        ensures
            n == self@.len(),
    {
        proof {
            use_type_invariant(self);
        }
        self.len
    }

    /// Returns `true` when the container holds no elements.
    pub fn is_empty(&self) -> (r: bool)
        ensures
            r <==> self@.len() == 0,
    {
        proof {
            use_type_invariant(self);
        }
        self.len == 0
    }

    /// Returns how many elements the container can hold without growing:
    /// the inline block's size while inline, the recorded heap capacity
    /// otherwise.
    pub fn capacity(&self) -> (c: usize)
        ensures
            c == self.spec_capacity(),
            self@.len() <= c,
            self.spec_inline() ==> c == INLINE_CAPACITY,
            !self.spec_inline() ==> c > INLINE_CAPACITY,
    {
        proof {
            use_type_invariant(self);
        }
        match &self.data {
            Data::Inline(_) => INLINE_CAPACITY,
            Data::Heap { capacity, .. } => *capacity,
        }
    }

    /// Reports whether the elements currently live in the inline block
    /// (no heap buffer has been taken).
    pub fn is_inline(&self) -> (r: bool)
        ensures
            r == self.spec_inline(),
    {
        match &self.data {
            Data::Inline(_) => true,
            Data::Heap { .. } => false,
        }
    }

    /// Creates an empty container that can hold `capacity` elements without
    /// growing. A request of at most [`INLINE_CAPACITY`] is served by the
    /// inline block, exactly as [`SmolVec::new`]; only a larger request
    /// reserves a heap buffer.
    pub fn with_capacity(capacity: usize) -> (v: Self)
        ensures
            v@ == Seq::<T>::empty(),
            capacity <= INLINE_CAPACITY ==> v.spec_inline() && v.spec_capacity() == INLINE_CAPACITY,
            capacity > INLINE_CAPACITY ==> !v.spec_inline() && v.spec_capacity() == capacity,
    {
        if capacity <= INLINE_CAPACITY {
            Self::new()
        } else {
            let v = SmolVec { len: 0, data: Data::Heap { buf: Vec::new(), capacity } };
            proof {
                assert(v@ =~= Seq::<T>::empty());
            }
            v
        }
    }

    /// Appends `value` after the last element. When the container is full
    /// it first grows: the elements move to a heap buffer of twice the old
    /// capacity, and the container never uses its inline block again.
    ///
    /// The bound on a full container's capacity only keeps the doubled
    /// capacity representable in `usize`.
    pub fn push(&mut self, value: T)
        requires
            old(self)@.len() == old(self).spec_capacity() ==> old(self).spec_capacity() <= usize::MAX / 2,
        ensures
            final(self)@ == old(self)@.push(value),
            final(self).spec_capacity() == capacity_after_push(
                old(self).spec_capacity() as int,
                old(self)@.len() as int,
            ),
            final(self).spec_inline() == inline_after_push(
                old(self).spec_inline(),
                old(self).spec_capacity() as int,
                old(self)@.len() as int,
            ),
    {
        proof {
            use_type_invariant(&*self);
        }
        // The container's invariant must hold at every step, so the value is
        // taken apart whole (a fresh empty container stands in for it) and
        // put back whole once the new length matches the new layout.
        let mut this = SmolVec::new();
        core::mem::swap(self, &mut this);
        let SmolVec { len, data } = this;
        let mut data = data;
        let cap = match &data {
            Data::Inline(_) => INLINE_CAPACITY,
            Data::Heap { capacity, .. } => *capacity,
        };
        if len == cap {
            data = data.into_grown(len);
        }
        match &mut data {
            Data::Inline(arr) => {
                arr[len] = Some(value);
            },
            Data::Heap { buf, .. } => {
                buf.push(value);
            },
        }
        *self = SmolVec { len: len + 1, data };
        proof {
            assert(self@ =~= old(self)@.push(value));
        }
    }

    /// Removes the last element and hands it to the caller, or returns
    /// `None` exactly when the container is empty. The slot the element
    /// lived in becomes logically absent; capacity and storage mode are
    /// retained.
    pub fn pop(&mut self) -> (r: Option<T>)
        ensures
            old(self)@.len() == 0 ==> r is None && final(self)@ == old(self)@,
            old(self)@.len() > 0 ==> r == Some(old(self)@.last()) && final(self)@ == old(self)@.drop_last(),
            final(self).spec_capacity() == old(self).spec_capacity(),
            final(self).spec_inline() == old(self).spec_inline(),
    {
        proof {
            use_type_invariant(&*self);
        }
        if self.len == 0 {
            return None;
        }
        let mut this = SmolVec::new();
        core::mem::swap(self, &mut this);
        let SmolVec { len, data } = this;
        let mut data = data;
        let value = match &mut data {
            Data::Inline(arr) => {
                let slot = arr[len - 1].take();
                slot.unwrap()
            },
            Data::Heap { buf, .. } => buf.pop().unwrap(),
        };
        *self = SmolVec { len: len - 1, data };
        proof {
            assert(self@ =~= old(self)@.drop_last());
        }
        Some(value)
    }

    /// Removes every element, destructing each, by popping until the
    /// container is empty. Capacity and storage mode are retained; no
    /// buffer is released.
    pub fn clear(&mut self)
        ensures
            final(self)@ == Seq::<T>::empty(),
            final(self).spec_capacity() == old(self).spec_capacity(),
            final(self).spec_inline() == old(self).spec_inline(),
    {
        while self.len() > 0
            invariant
                self.spec_capacity() == old(self).spec_capacity(),
                self.spec_inline() == old(self).spec_inline(),
            decreases self@.len(),
        {
            let _ = self.pop();
        }
        proof {
            assert(self@ =~= Seq::<T>::empty());
        }
    }

    /// Read access to the element at `index`. Calling it out of bounds is a
    /// contract breach, not a handled error.
    pub fn get(&self, index: usize) -> (r: &T)
        requires
            index < self@.len(),
        ensures
            *r == self@[index as int],
    {
        proof {
            use_type_invariant(self);
        }
        match &self.data {
            Data::Inline(arr) => arr[index].as_ref().unwrap(),
            Data::Heap { buf, .. } => &buf[index],
        }
    }

    /// Write access to the element at `index`: replaces the element there,
    /// destructing the old one. Calling it out of bounds is a contract
    /// breach, not a handled error.
    pub fn set(&mut self, index: usize, value: T)
        requires
            index < old(self)@.len(),
        ensures
            final(self)@ == old(self)@.update(index as int, value),
            final(self).spec_capacity() == old(self).spec_capacity(),
            final(self).spec_inline() == old(self).spec_inline(),
    {
        proof {
            use_type_invariant(&*self);
        }
        let mut this = SmolVec::new();
        core::mem::swap(self, &mut this);
        let SmolVec { len, data } = this;
        let mut data = data;
        match &mut data {
            Data::Inline(arr) => {
                arr[index] = Some(value);
            },
            Data::Heap { buf, .. } => {
                buf[index] = value;
            },
        }
        *self = SmolVec { len, data };
        proof {
            assert(self@ =~= old(self)@.update(index as int, value));
        }
    }

    /// Transfers ownership of every element, in order, into a standard
    /// growable vector. The elements are moved, not duplicated, and are not
    /// destructed again; a heap buffer the container held is released with
    /// the container itself.
    pub fn into_vec(self) -> (v: Vec<T>)
        ensures
            v@ == self@,
    {
        proof {
            use_type_invariant(&self);
        }
        let ghost orig = self@;
        let SmolVec { len, data } = self;
        match data {
            Data::Heap { buf, .. } => buf,
            Data::Inline(arr) => {
                let mut arr = arr;
                let mut out: Vec<T> = Vec::new();
                let mut i: usize = 0;
                while i < len
                    invariant
                        i <= len,
                        len <= INLINE_CAPACITY,
                        forall|j: int| i <= j < len ==> (#[trigger] arr@[j]) is Some,
                        forall|j: int| i <= j < len ==> (#[trigger] arr@[j]).unwrap() == orig[j],
                        out@.len() == i,
                        forall|j: int| 0 <= j < i ==> out@[j] == orig[j],
                        orig.len() == len,
                    decreases len - i,
                {
                    let slot = arr[i].take();
                    out.push(slot.unwrap());
                    i += 1;
                }
                proof {
                    assert(out@ =~= orig);
                }
                out
            },
        }
    }

    /// Appends every element of `values`, in order, by repeated pushes.
    ///
    /// The bound on the combined length only keeps every intermediate
    /// capacity representable in `usize`.
    pub fn extend(&mut self, values: Vec<T>)
        requires
            old(self)@.len() + values@.len() <= usize::MAX / 2,
        ensures
            final(self)@ == old(self)@ + values@,
            final(self).spec_capacity() >= old(self).spec_capacity(),
            final(self).spec_inline() ==> old(self).spec_inline(),
            old(self)@.len() + values@.len() <= old(self).spec_capacity()
                ==> final(self).spec_capacity() == old(self).spec_capacity()
                    && final(self).spec_inline() == old(self).spec_inline(),
    {
        let ghost all = values@;
        let mut values = values;
        while values.len() > 0
            invariant
                self@ + values@ == old(self)@ + all,
                self@.len() + values@.len() <= usize::MAX / 2,
                self.spec_capacity() >= old(self).spec_capacity(),
                self.spec_inline() ==> old(self).spec_inline(),
                old(self)@.len() + all.len() <= old(self).spec_capacity() ==> self.spec_capacity()
                    == old(self).spec_capacity() && self.spec_inline() == old(self).spec_inline(),
            decreases values@.len(),
        {
            let x = values.remove(0);
            self.push(x);
            proof {
                assert(self@ + values@ =~= old(self)@ + all);
            }
        }
        proof {
            assert(self@ =~= old(self)@ + all);
        }
    }

    /// Builds a container from the elements of a standard vector, in order:
    /// an empty container followed by a bulk ingestion.
    ///
    /// The bound on the length only keeps every intermediate capacity
    /// representable in `usize`.
    pub fn from_vec(values: Vec<T>) -> (v: Self)
        requires
            values@.len() <= usize::MAX / 2,
        ensures
            v@ == values@,
            values@.len() <= INLINE_CAPACITY ==> v.spec_inline() && v.spec_capacity()
                == INLINE_CAPACITY,
    {
        let mut v = Self::new();
        v.extend(values);
        proof {
            assert(v@ =~= values@);
        }
        v
    }
}

} // verus!
