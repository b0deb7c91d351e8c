//! An accessor to an array of values on memory.
use core::marker::PhantomData;
use vstd::layout::{align_of, size_of};
use vstd::pervasive::runtime_assert;
use vstd::prelude::*;
use vstd::std_specs::cmp::PartialEqSpec;

use crate::error::Error;
use crate::mapper::{Mapper, Memory};
use crate::marker::{self, AccessorTypeSpecifier, Readable, Writable};
use crate::single::apart;
use crate::{aligned_for, is_aligned};

verus! {

/// An alias of [`ReadWrite`], under its older name.
pub type Array<T, M> = ReadWrite<T, M>;

/// A readable and writable accessor.
pub type ReadWrite<T, M> = Generic<T, M, marker::ReadWrite>;

/// A read-only accessor.
pub type ReadOnly<T, M> = Generic<T, M, marker::ReadOnly>;

/// A write-only accessor.
pub type WriteOnly<T, M> = Generic<T, M, marker::WriteOnly>;

/// What an array holds after its element `i` was written with `v`.
///
/// Elements of a zero-sized type all share one address, so a write to one of
/// them is a write to all of them.
pub open spec fn written<T>(s: Seq<T>, i: int, v: T) -> Seq<T> {
    if size_of::<T>() == 0 {
        Seq::new(s.len(), |j: int| v)
    } else {
        s.update(i, v)
    }
}

/// The element `i` of an array of `len` values of `T` lies wholly inside the
/// array.
proof fn lemma_element_placement<T>(len: int, i: int)
    requires
        0 <= i < len,
    ensures
        0 <= i * size_of::<T>(),
        i * size_of::<T>() + size_of::<T>() <= size_of::<T>() * len,
{
    let size = size_of::<T>() as int;
    assert(0 <= i * size && i * size + size <= size * len) by (nonlinear_arith)
        requires
            0 <= i < len,
            0 <= size,
    ;
}

/// Elements `j < i` of an array lie wholly below element `i`.
proof fn lemma_elements_apart(j: int, i: int, size: int)
    requires
        0 <= j < i,
        0 <= size,
    ensures
        j * size + size <= i * size,
{
    assert(j * size + size <= i * size) by (nonlinear_arith)
        requires
            0 <= j < i,
            0 <= size,
    ;
}

/// Turns an array accessor of a record type into a record of accessors, one
/// for each field of the element `i`, which borrow the array accessor.
///
/// Code that implements it reaches the fields from [`Generic::addr`], which
/// gives the address of each element inside the array.
pub trait BoundedStructural<T, M, A> where M: Mapper + Memory<T>, A: Readable {
    /// The record of read-only accessors that `structural_at` returns.
    type BoundedStructuralType<'a> where Self: 'a;

    /// Returns the element `i` as a record of read-only accessors.
    fn structural_at(&self, i: usize) -> Self::BoundedStructuralType<'_>;
}

/// The writable counterpart of [`BoundedStructural`].
pub trait BoundedStructuralMut<T, M, A> where M: Mapper + Memory<T>, A: Writable {
    /// The record of writable accessors that `structural_at_mut` returns.
    type BoundedStructuralType<'a> where Self: 'a;

    /// Returns the element `i` as a record of writable accessors.
    fn structural_at_mut(&mut self, i: usize) -> Self::BoundedStructuralType<'_>;
}

/// An accessor to read, modify, and write an array of values of `T` on
/// memory, whose first element has the index 0.
///
/// It maps its region once, when it is made, and reads and writes it through
/// its mapper's memory; `close` unmaps it and hands the mapper back. An
/// accessor that is dropped without `close` leaves its region mapped. Reads
/// are never cached: each one is a fresh volatile load.
pub struct Generic<T, M, A> where M: Mapper + Memory<T>, A: AccessorTypeSpecifier {
    virt: usize,
    len: usize,
    phys: Ghost<usize>,
    mapper: M,
    _marker: PhantomData<T>,
    _read_write: PhantomData<A>,
}

impl<T, M, A> Generic<T, M, A> where M: Mapper + Memory<T>, A: AccessorTypeSpecifier {
    /// Whether the accessor is well formed: the array is not empty and lies
    /// inside the address space.
    pub closed spec fn wf(&self) -> bool {
        &&& self.len > 0
        &&& self.virt + size_of::<T>() * self.len <= usize::MAX
    }

    /// The virtual address of the first element, which `map` returned.
    pub closed spec fn virt_base(&self) -> usize {
        self.virt
    }

    /// The physical address that `map` was given.
    pub closed spec fn phys_base(&self) -> usize {
        self.phys@
    }

    /// The length of the mapped region in bytes.
    pub closed spec fn byte_len(&self) -> usize {
        (size_of::<T>() * self.len) as usize
    }

    /// The mapper that the accessor owns, with its memory.
    pub closed spec fn mapper(&self) -> M {
        self.mapper
    }

    /// The number of elements.
    pub closed spec fn spec_len(&self) -> nat {
        self.len as nat
    }

    /// The virtual address of the element `i`.
    pub open spec fn element_addr(&self, i: int) -> int {
        self.virt_base() + i * size_of::<T>()
    }

    /// Whether the element `i` lies in plain memory.
    pub open spec fn element_plain(&self, i: int) -> bool {
        self.mapper().plain(self.element_addr(i) as usize)
    }

    /// Whether every element lies in plain memory.
    pub open spec fn is_plain(&self) -> bool {
        forall|i: int| 0 <= i < self@.len() ==> #[trigger] self.element_plain(i)
    }

    /// Creates an accessor to `[T; len]` at the physical address `phys_base`,
    /// which it maps with one call `map(phys_base, size_of::<T>() * len)`.
    ///
    /// The array at `phys_base` must be valid, and no other accessor may reach
    /// it while the returned one lives. This method panics if `phys_base` is
    /// not aligned as `T` requires or if `len == 0`.
    pub fn new(phys_base: usize, len: usize, mapper: M) -> (r: Self)
        requires
            aligned_for::<T>(phys_base as int),
            len != 0,
            phys_base + size_of::<T>() * len <= usize::MAX,
        ensures
            r.wf(),
            r@.len() == len,
            r.phys_base() == phys_base,
            r.byte_len() == size_of::<T>() * len,
            mapper.map_step(phys_base, r.byte_len(), r.virt_base(), r.mapper()),
    {
        runtime_assert(is_aligned::<T>(phys_base));
        runtime_assert(len != 0);
        let mut mapper = mapper;
        let bytes = core::mem::size_of::<T>() * len;
        let virt = mapper.map(phys_base, bytes);
        Generic {
            virt,
            len,
            phys: Ghost(phys_base),
            mapper,
            _marker: PhantomData,
            _read_write: PhantomData,
        }
    }

    /// Creates an accessor to `[T; len]` at the physical address `phys_base`,
    /// or says why it cannot: `EmptyArray` if `len == 0`, else `NotAligned` if
    /// `phys_base` is not aligned as `T` requires. On an error nothing is
    /// mapped.
    pub fn try_new(phys_base: usize, len: usize, mapper: M) -> (r: Result<Self, Error>)
        requires
            len != 0 && aligned_for::<T>(phys_base as int) ==> phys_base + size_of::<T>() * len
                <= usize::MAX,
        ensures
            len == 0 ==> r == Err::<Self, Error>(Error::EmptyArray),
            len != 0 && !aligned_for::<T>(phys_base as int) ==> r == Err::<Self, Error>(
                Error::NotAligned { address: phys_base, alignment: align_of::<T>() as usize },
            ),
            len != 0 && aligned_for::<T>(phys_base as int) ==> {
                &&& r is Ok
                &&& r->Ok_0.wf()
                &&& r->Ok_0@.len() == len
                &&& r->Ok_0.phys_base() == phys_base
                &&& r->Ok_0.byte_len() == size_of::<T>() * len
                &&& mapper.map_step(
                    phys_base,
                    r->Ok_0.byte_len(),
                    r->Ok_0.virt_base(),
                    r->Ok_0.mapper(),
                )
            },
    {
        if len == 0 {
            Err(Error::EmptyArray)
        } else if is_aligned::<T>(phys_base) {
            Ok(Self::new(phys_base, len, mapper))
        } else {
            Err(Error::NotAligned { alignment: core::mem::align_of::<T>(), address: phys_base })
        }
    }

    /// Returns the length of the array.
    pub fn len(&self) -> (r: usize)
        requires
            self.wf(),
        ensures
            r == self@.len(),
            r > 0,
    {
        self.len
    }

    /// Returns the virtual address of the element `i`, for code that reaches
    /// the fields of that element on its own.
    pub fn addr(&self, i: usize) -> (r: usize)
        requires
            self.wf(),
            i < self@.len(),
        ensures
            r == self.element_addr(i as int),
            r + size_of::<T>() <= self.virt_base() + self.byte_len(),
    {
        proof {
            lemma_element_placement::<T>(self.len as int, i as int);
        }
        self.virt + core::mem::size_of::<T>() * i
    }

    /// Unmaps the array with one call `unmap(virt, size_of::<T>() * len)`,
    /// where `virt` is the address that `map` returned, and hands the mapper
    /// back.
    pub fn close(self) -> (m: M)
        requires
            self.wf(),
        ensures
            self.mapper().unmap_step(self.virt_base(), self.byte_len(), m),
    {
        let bytes = core::mem::size_of::<T>() * self.len;
        let Generic { virt, mut mapper, .. } = self;
        mapper.unmap(virt, bytes);
        mapper
    }
}

impl<T, M, A> View for Generic<T, M, A> where M: Mapper + Memory<T>, A: AccessorTypeSpecifier {
    type V = Seq<T>;

    /// The values that the memory of the elements holds now.
    open spec fn view(&self) -> Seq<T> {
        Seq::new(self.spec_len(), |i: int| self.mapper().value_at(self.element_addr(i) as usize))
    }
}

impl<T, M, A> Generic<T, M, A> where M: Mapper + Memory<T>, A: Readable {
    /// Reads the element `i` with a volatile load. In plain memory it yields
    /// what the memory holds.
    ///
    /// This method panics if `i >= self.len()`, before it touches memory.
    pub fn read_volatile_at(&self, i: usize) -> (r: T)
        requires
            self.wf(),
            i < self@.len(),
        ensures
            self.element_plain(i as int) ==> r == self@[i as int],
    {
        runtime_assert(i < self.len);
        let addr = self.addr(i);
        self.mapper.read_volatile(addr)
    }

    /// Alias of [`Generic::read_volatile_at`].
    pub fn read_at(&self, i: usize) -> (r: T)
        requires
            self.wf(),
            i < self@.len(),
        ensures
            self.element_plain(i as int) ==> r == self@[i as int],
    {
        self.read_volatile_at(i)
    }
}

impl<T, M, A> Generic<T, M, A> where M: Mapper + Memory<T>, A: Writable {
    /// Writes `v` as the element `i` with a volatile store. In plain memory
    /// the element is then `v`; plain memory outside it keeps what it held.
    ///
    /// This method panics if `i >= self.len()`, before it touches memory.
    pub fn write_volatile_at(&mut self, i: usize, v: T)
        requires
            old(self).wf(),
            i < old(self)@.len(),
        ensures
            final(self).wf(),
            final(self).virt_base() == old(self).virt_base(),
            final(self).phys_base() == old(self).phys_base(),
            final(self).byte_len() == old(self).byte_len(),
            final(self)@.len() == old(self)@.len(),
            forall|a: usize| #[trigger]
                final(self).mapper().plain(a) == old(self).mapper().plain(a),
            old(self).element_plain(i as int) ==> final(self)@[i as int] == v,
            forall|a: usize|
                old(self).mapper().plain(a) && apart::<T>(
                    a,
                    old(self).element_addr(i as int) as usize,
                ) ==> #[trigger] final(self).mapper().value_at(a) == old(self).mapper().value_at(a),
            old(self).is_plain() ==> final(self)@ == written(old(self)@, i as int, v),
    {
        runtime_assert(i < self.len);
        let addr = self.addr(i);
        self.mapper.write_volatile(addr, v);
        proof {
            let size = size_of::<T>() as int;
            let len = self.len as int;
            if old(self).is_plain() {
                assert forall|j: int| 0 <= j < len implies #[trigger] self@[j] == written(
                    old(self)@,
                    i as int,
                    v,
                )[j] by {
                    lemma_element_placement::<T>(len, j);
                    let aj = (self.virt + j * size) as usize;
                    assert(aj as int == self.virt + j * size);
                    assert(old(self).element_plain(j));
                    if size == 0 {
                        assert(j * size == 0 && i * size == 0) by (nonlinear_arith)
                            requires
                                size == 0,
                        ;
                        assert(aj == addr);
                    } else if j < i {
                        lemma_elements_apart(j, i as int, size);
                        assert(self.mapper.value_at(aj) == old(self).mapper.value_at(aj));
                    } else if i < j {
                        lemma_elements_apart(i as int, j, size);
                        assert(self.mapper.value_at(aj) == old(self).mapper.value_at(aj));
                    } else {
                        assert(aj == addr);
                    }
                }
                assert(self@ =~= written(old(self)@, i as int, v));
            }
        }
    }

    /// Alias of [`Generic::write_volatile_at`].
    pub fn write_at(&mut self, i: usize, v: T)
        requires
            old(self).wf(),
            i < old(self)@.len(),
        ensures
            final(self).wf(),
            final(self).virt_base() == old(self).virt_base(),
            final(self).phys_base() == old(self).phys_base(),
            final(self).byte_len() == old(self).byte_len(),
            final(self)@.len() == old(self)@.len(),
            forall|a: usize| #[trigger]
                final(self).mapper().plain(a) == old(self).mapper().plain(a),
            old(self).element_plain(i as int) ==> final(self)@[i as int] == v,
            forall|a: usize|
                old(self).mapper().plain(a) && apart::<T>(
                    a,
                    old(self).element_addr(i as int) as usize,
                ) ==> #[trigger] final(self).mapper().value_at(a) == old(self).mapper().value_at(a),
            old(self).is_plain() ==> final(self)@ == written(old(self)@, i as int, v),
    {
        self.write_volatile_at(i, v);
    }
}

impl<T, M, A> Generic<T, M, A> where M: Mapper + Memory<T>, A: Readable + Writable {
    /// Updates the element `i` by reading it, applying `f` to it, and writing
    /// the result back. In plain memory the array is then as if what `f`
    /// returned for the old element had been written there.
    ///
    /// Some memory-mapped registers read as a fixed value, such as 0, whatever
    /// was written to them. On such a register, update once at most: a second
    /// update starts from the fixed value, not from the first one's result.
    ///
    /// This method panics if `i >= self.len()`, before it touches memory.
    pub fn update_volatile_at<F>(&mut self, i: usize, f: F)
        where
            F: FnOnce(T) -> T,
        requires
            old(self).wf(),
            i < old(self)@.len(),
            forall|x: T| f.requires((x,)),
        ensures
            final(self).wf(),
            final(self).virt_base() == old(self).virt_base(),
            final(self).phys_base() == old(self).phys_base(),
            final(self).byte_len() == old(self).byte_len(),
            final(self)@.len() == old(self)@.len(),
            forall|a: usize| #[trigger]
                final(self).mapper().plain(a) == old(self).mapper().plain(a),
            forall|a: usize|
                old(self).mapper().plain(a) && apart::<T>(
                    a,
                    old(self).element_addr(i as int) as usize,
                ) ==> #[trigger] final(self).mapper().value_at(a) == old(self).mapper().value_at(a),
            old(self).is_plain() ==> {
                &&& f.ensures((old(self)@[i as int],), final(self)@[i as int])
                &&& final(self)@ == written(old(self)@, i as int, final(self)@[i as int])
            },
    {
        let v = self.read_volatile_at(i);
        let w = f(v);
        self.write_volatile_at(i, w);
        proof {
            if old(self).is_plain() {
                assert(old(self).element_plain(i as int));
                lemma_written_at::<T>(old(self)@, i as int, w);
            }
        }
    }

    /// Alias of [`Generic::update_volatile_at`].
    pub fn update_at<F>(&mut self, i: usize, f: F)
        where
            F: FnOnce(T) -> T,
        requires
            old(self).wf(),
            i < old(self)@.len(),
            forall|x: T| f.requires((x,)),
        ensures
            final(self).wf(),
            final(self).virt_base() == old(self).virt_base(),
            final(self).phys_base() == old(self).phys_base(),
            final(self).byte_len() == old(self).byte_len(),
            final(self)@.len() == old(self)@.len(),
            forall|a: usize| #[trigger]
                final(self).mapper().plain(a) == old(self).mapper().plain(a),
            forall|a: usize|
                old(self).mapper().plain(a) && apart::<T>(
                    a,
                    old(self).element_addr(i as int) as usize,
                ) ==> #[trigger] final(self).mapper().value_at(a) == old(self).mapper().value_at(a),
            old(self).is_plain() ==> {
                &&& f.ensures((old(self)@[i as int],), final(self)@[i as int])
                &&& final(self)@ == written(old(self)@, i as int, final(self)@[i as int])
            },
    {
        self.update_volatile_at(i, f);
    }
}

impl<T, M, A> Generic<T, M, A> where T: PartialEq, M: Mapper + Memory<T>, A: Readable {
    /// Whether two arrays hold equal values, compared index by index up to
    /// the shorter length; the extra elements of a longer array do not count.
    /// It stops reading at the first pair that differs.
    ///
    /// The result is stated for arrays in plain memory, when `T`'s `==`
    /// follows its specification, as it does for the integer types.
    pub fn eq(&self, other: &Self) -> (r: bool)
        requires
            self.wf(),
            other.wf(),
        ensures
            T::obeys_eq_spec() && self.is_plain() && other.is_plain() ==> (r <==> pairwise_eq(
                self@,
                other@,
            )),
    {
        let n = if self.len() < other.len() {
            self.len()
        } else {
            other.len()
        };
        let mut i: usize = 0;
        while i < n
            invariant
                self.wf(),
                other.wf(),
                n == if self@.len() < other@.len() {
                    self@.len()
                } else {
                    other@.len()
                },
                i <= n,
                forall|j: int|
                    0 <= j < i ==> T::obeys_eq_spec() && self.is_plain() && other.is_plain()
                        ==> #[trigger] self@[j].eq_spec(&other@[j]),
            decreases n - i,
        {
            let x = self.read_volatile_at(i);
            let y = other.read_volatile_at(i);
            proof {
                if self.is_plain() && other.is_plain() {
                    assert(self.element_plain(i as int));
                    assert(other.element_plain(i as int));
                }
            }
            if !x.eq(&y) {
                return false;
            }
            i += 1;
        }
        true
    }
}

/// Whether `a` and `b` hold equal values at each index that both have, by
/// `T`'s specification of `==`.
pub open spec fn pairwise_eq<T: PartialEq>(a: Seq<T>, b: Seq<T>) -> bool {
    forall|j: int| 0 <= j < a.len() && 0 <= j < b.len() ==> #[trigger] a[j].eq_spec(&b[j])
}

/// A forward iterator over the elements of an array, each read with a fresh
/// volatile load when it is reached.
pub struct Iter<'a, T, M, A> where M: Mapper + Memory<T>, A: Readable {
    a: &'a Generic<T, M, A>,
    i: usize,
}

impl<'a, T, M, A> Iter<'a, T, M, A> where M: Mapper + Memory<T>, A: Readable {
    /// Whether the iterator is well formed: its array is, and its position
    /// lies inside it or just past its end.
    pub closed spec fn wf(&self) -> bool {
        self.a.wf() && self.i <= self.a.len
    }

    /// The array that the iterator walks.
    pub closed spec fn array(&self) -> Generic<T, M, A> {
        *self.a
    }

    /// The index of the element that `next` yields.
    pub closed spec fn index(&self) -> nat {
        self.i as nat
    }

    fn new(a: &'a Generic<T, M, A>) -> (r: Self)
        requires
            a.wf(),
        ensures
            r.wf(),
            r.array() == *a,
            r.index() == 0,
    {
        Iter { a, i: 0 }
    }

    /// Yields the next element, or `None` past the last one. An element in
    /// plain memory is what the memory holds.
    pub fn next(&mut self) -> (r: Option<T>)
        requires
            old(self).wf(),
        ensures
            final(self).wf(),
            final(self).array() == old(self).array(),
            old(self).index() < old(self).array()@.len() ==> {
                &&& r is Some
                &&& old(self).array().element_plain(old(self).index() as int) ==> r
                    == Some(old(self).array()@[old(self).index() as int])
                &&& final(self).index() == old(self).index() + 1
            },
            old(self).index() >= old(self).array()@.len() ==> {
                &&& r is None
                &&& final(self).index() == old(self).index()
            },
    {
        if self.i < self.a.len() {
            let t = self.a.read_volatile_at(self.i);
            self.i = self.i + 1;
            Some(t)
        } else {
            None
        }
    }
}

impl<T, M, A> Generic<T, M, A> where M: Mapper + Memory<T>, A: Readable {
    /// Returns an iterator over the elements, from the index 0 up.
    pub fn into_iter(&self) -> (r: Iter<'_, T, M, A>)
        requires
            self.wf(),
        ensures
            r.wf(),
            r.array() == *self,
            r.index() == 0,
    {
        Iter::new(self)
    }
}

/// How a bounded accessor reaches the mapper of its array.
enum Place<'a, M> {
    Shared(&'a M),
    Exclusive(&'a mut M),
}

/// An accessor to one element of an array accessor, which it borrows.
///
/// It holds only the element's address and the array's capability: it maps
/// nothing and unmaps nothing.
pub struct Bounded<'a, T, M, A> where M: Mapper + Memory<T>, A: AccessorTypeSpecifier {
    place: Place<'a, M>,
    addr: usize,
    _marker: PhantomData<(T, A)>,
}

impl<'a, T, M, A> Bounded<'a, T, M, A> where M: Mapper + Memory<T>, A: AccessorTypeSpecifier {
    /// Whether the accessor is well formed: it may store only through an
    /// exclusive borrow.
    pub closed spec fn wf(&self) -> bool {
        A::may_write() ==> self.place is Exclusive
    }

    /// The virtual address of the element.
    pub closed spec fn element_addr(&self) -> usize {
        self.addr
    }

    /// The mapper of the array, as it is now.
    pub closed spec fn target(&self) -> M {
        match self.place {
            Place::Shared(m) => *m,
            Place::Exclusive(m) => *m,
        }
    }

    /// The exclusive borrow of the array's mapper, if the accessor holds one.
    pub closed spec fn borrow(&self) -> Option<&'a mut M> {
        match self.place {
            Place::Shared(m) => None,
            Place::Exclusive(m) => Some(m),
        }
    }

    /// Whether the element lies in plain memory.
    pub open spec fn is_plain(&self) -> bool {
        self.target().plain(self.element_addr())
    }
}

/// Once nothing more is done with a bounded accessor that holds an exclusive
/// borrow, the array's mapper is left as the accessor's mapper is now.
pub proof fn lemma_bounded_resolved<'a, T, M, A>(b: Bounded<'a, T, M, A>)
    where
        M: Mapper + Memory<T>,
        A: AccessorTypeSpecifier,
    requires
        has_resolved(b),
        b.borrow() is Some,
    ensures
        b.target() == *final(b.borrow()->Some_0),
{
}

impl<'a, T, M, A> View for Bounded<'a, T, M, A> where
    M: Mapper + Memory<T>,
    A: AccessorTypeSpecifier,
 {
    type V = T;

    /// The value that the memory of the element holds now.
    open spec fn view(&self) -> T {
        self.target().value_at(self.element_addr())
    }
}

impl<'a, T, M, A> Bounded<'a, T, M, A> where M: Mapper + Memory<T>, A: Readable {
    /// Reads the element with a volatile load. In plain memory it yields what
    /// the memory holds.
    pub fn read_volatile(&self) -> (r: T)
        requires
            self.wf(),
        ensures
            self.is_plain() ==> r == self@,
    {
        match &self.place {
            Place::Shared(m) => m.read_volatile(self.addr),
            Place::Exclusive(m) => m.read_volatile(self.addr),
        }
    }

    /// Alias of [`Bounded::read_volatile`].
    pub fn read(&self) -> (r: T)
        requires
            self.wf(),
        ensures
            self.is_plain() ==> r == self@,
    {
        self.read_volatile()
    }
}

impl<'a, T, M, A> Bounded<'a, T, M, A> where M: Mapper + Memory<T>, A: Writable {
    /// Writes `v` to the element with a volatile store. In plain memory the
    /// element is then `v`; plain memory outside it keeps what it held.
    pub fn write_volatile(&mut self, v: T)
        requires
            old(self).wf(),
        ensures
            final(self).wf(),
            final(self).element_addr() == old(self).element_addr(),
            forall|a: usize| #[trigger]
                final(self).target().plain(a) == old(self).target().plain(a),
            old(self).is_plain() ==> final(self)@ == v,
            forall|a: usize|
                old(self).target().plain(a) && apart::<T>(a, old(self).element_addr())
                    ==> #[trigger] final(self).target().value_at(a) == old(self).target().value_at(a),
            final(self).borrow() is Some,
            old(self).borrow() is Some,
            *final(final(self).borrow()->Some_0) == *final(old(self).borrow()->Some_0),
    {
        proof {
            A::lemma_may_write();
        }
        match &mut self.place {
            Place::Shared(_) => {},
            Place::Exclusive(m) => m.write_volatile(self.addr, v),
        }
    }

    /// Alias of [`Bounded::write_volatile`].
    pub fn write(&mut self, v: T)
        requires
            old(self).wf(),
        ensures
            final(self).wf(),
            final(self).element_addr() == old(self).element_addr(),
            forall|a: usize| #[trigger]
                final(self).target().plain(a) == old(self).target().plain(a),
            old(self).is_plain() ==> final(self)@ == v,
            forall|a: usize|
                old(self).target().plain(a) && apart::<T>(a, old(self).element_addr())
                    ==> #[trigger] final(self).target().value_at(a) == old(self).target().value_at(a),
            final(self).borrow() is Some,
            old(self).borrow() is Some,
            *final(final(self).borrow()->Some_0) == *final(old(self).borrow()->Some_0),
    {
        self.write_volatile(v);
    }
}

impl<'a, T, M, A> Bounded<'a, T, M, A> where M: Mapper + Memory<T>, A: Readable + Writable {
    /// Updates the element by reading it, applying `f` to it, and writing the
    /// result back. In plain memory the element is then what `f` returned for
    /// the old one.
    ///
    /// Some memory-mapped registers read as a fixed value, such as 0, whatever
    /// was written to them. On such a register, update once at most: a second
    /// update starts from the fixed value, not from the first one's result.
    pub fn update_volatile<F>(&mut self, f: F)
        where
            F: FnOnce(T) -> T,
        requires
            old(self).wf(),
            forall|x: T| f.requires((x,)),
        ensures
            final(self).wf(),
            final(self).element_addr() == old(self).element_addr(),
            forall|a: usize| #[trigger]
                final(self).target().plain(a) == old(self).target().plain(a),
            old(self).is_plain() ==> f.ensures((old(self)@,), final(self)@),
            forall|a: usize|
                old(self).target().plain(a) && apart::<T>(a, old(self).element_addr())
                    ==> #[trigger] final(self).target().value_at(a) == old(self).target().value_at(a),
            final(self).borrow() is Some,
            old(self).borrow() is Some,
            *final(final(self).borrow()->Some_0) == *final(old(self).borrow()->Some_0),
    {
        let v = self.read_volatile();
        let w = f(v);
        self.write_volatile(w);
    }

    /// Alias of [`Bounded::update_volatile`].
    pub fn update<F>(&mut self, f: F)
        where
            F: FnOnce(T) -> T,
        requires
            old(self).wf(),
            forall|x: T| f.requires((x,)),
        ensures
            final(self).wf(),
            final(self).element_addr() == old(self).element_addr(),
            forall|a: usize| #[trigger]
                final(self).target().plain(a) == old(self).target().plain(a),
            old(self).is_plain() ==> f.ensures((old(self)@,), final(self)@),
            forall|a: usize|
                old(self).target().plain(a) && apart::<T>(a, old(self).element_addr())
                    ==> #[trigger] final(self).target().value_at(a) == old(self).target().value_at(a),
            final(self).borrow() is Some,
            old(self).borrow() is Some,
            *final(final(self).borrow()->Some_0) == *final(old(self).borrow()->Some_0),
    {
        self.update_volatile(f);
    }
}

impl<T, M, A> Generic<T, M, A> where M: Mapper + Memory<T>, A: Readable {
    /// Returns the element `i` as a read-only accessor that borrows this one.
    ///
    /// This method panics if `i >= self.len()`.
    pub fn at(&self, i: usize) -> (r: Bounded<'_, T, M, marker::ReadOnly>)
        requires
            self.wf(),
            i < self@.len(),
        ensures
            r.wf(),
            r.element_addr() == self.element_addr(i as int),
            r.target() == self.mapper(),
            r@ == self@[i as int],
    {
        runtime_assert(i < self.len);
        let addr = self.addr(i);
        Bounded { place: Place::Shared(&self.mapper), addr, _marker: PhantomData }
    }
}

impl<T, M, A> Generic<T, M, A> where M: Mapper + Memory<T>, A: Writable {
    /// Returns the element `i` as an accessor with this one's capability that
    /// borrows this one. What is done through it is done to this accessor's
    /// mapper: see [`lemma_bounded_resolved`].
    ///
    /// This method panics if `i >= self.len()`.
    pub fn at_mut(&mut self, i: usize) -> (r: Bounded<'_, T, M, A>)
        requires
            old(self).wf(),
            i < old(self)@.len(),
        ensures
            r.wf(),
            r.element_addr() == old(self).element_addr(i as int),
            r.target() == old(self).mapper(),
            r@ == old(self)@[i as int],
            r.borrow() is Some,
            final(self).mapper() == *final(r.borrow()->Some_0),
            final(self).wf(),
            final(self).virt_base() == old(self).virt_base(),
            final(self).phys_base() == old(self).phys_base(),
            final(self).byte_len() == old(self).byte_len(),
            final(self)@.len() == old(self)@.len(),
    {
        runtime_assert(i < self.len);
        let addr = self.addr(i);
        Bounded { place: Place::Exclusive(&mut self.mapper), addr, _marker: PhantomData }
    }
}

/// Reading the element `i` of plain memory right after writing `v` there
/// yields `v`, and the write keeps the length.
pub proof fn lemma_written_at<T>(s: Seq<T>, i: int, v: T)
    requires
        0 <= i < s.len(),
    ensures
        written(s, i, v).len() == s.len(),
        written(s, i, v)[i] == v,
{
}

/// With a mapper that maps each address to itself, the element `i` of an
/// array accessor lies at `phys_base + i * size_of::<T>()`, and in plain
/// memory a read of it yields the value stored there.
pub proof fn lemma_identity_mapped_elements<T, M, A>(before: M, a: Generic<T, M, A>, i: int)
    where
        M: Mapper + Memory<T>,
        A: AccessorTypeSpecifier,
    requires
        forall|p: usize, b: usize, v: usize, m: M| #[trigger] before.map_step(p, b, v, m) ==> v == p,
        before.map_step(a.phys_base(), a.byte_len(), a.virt_base(), a.mapper()),
        0 <= i < a@.len(),
    ensures
        a.element_addr(i) == a.phys_base() + i * size_of::<T>(),
        a@[i] == a.mapper().value_at((a.phys_base() + i * size_of::<T>()) as usize),
{
}

/// Updating the element `i` of plain memory with a function `f` that
/// computes `g` leaves the array as writing `g` of that element's value there
/// would.
pub proof fn lemma_update_is_write_of_read<T, F>(
    before: Seq<T>,
    after: Seq<T>,
    i: int,
    f: F,
    g: spec_fn(T) -> T,
)
    where
        F: FnOnce(T) -> T,
    requires
        0 <= i < before.len(),
        forall|x: T, y: T| #[trigger] f.ensures((x,), y) ==> y == g(x),
        f.ensures((before[i],), after[i]),
        after == written(before, i, after[i]),
    ensures
        after == written(before, i, g(before[i])),
{
}

/// Reading an array of plain memory element by element, twice, with nothing
/// written in between, yields the same values both times: each read yields
/// the element that the memory holds.
pub proof fn lemma_reads_repeat<T, M, A>(a: Generic<T, M, A>, first: Seq<T>, second: Seq<T>)
    where
        M: Mapper + Memory<T>,
        A: Readable,
    requires
        a.is_plain(),
        first.len() == a@.len(),
        second.len() == a@.len(),
        forall|i: int| 0 <= i < a@.len() && a.element_plain(i) ==> #[trigger] first[i] == a@[i],
        forall|i: int| 0 <= i < a@.len() && a.element_plain(i) ==> #[trigger] second[i] == a@[i],
    ensures
        first == second,
{
    assert forall|i: int| 0 <= i < first.len() implies first[i] == second[i] by {
        assert(a.element_plain(i));
    }
    assert(first =~= second);
}

/// The one `unmap` that `close` makes gets the address that the one `map` of
/// `new` returned for `phys_base`, and the length that `map` was given.
pub proof fn lemma_close_unmaps_what_new_mapped<T, M, A>(
    before: M,
    made: Generic<T, M, A>,
    used: Generic<T, M, A>,
    after: M,
)
    where
        M: Mapper + Memory<T>,
        A: AccessorTypeSpecifier,
    requires
        before.map_step(made.phys_base(), made.byte_len(), made.virt_base(), made.mapper()),
        used.virt_base() == made.virt_base(),
        used.byte_len() == made.byte_len(),
        used.mapper().unmap_step(used.virt_base(), used.byte_len(), after),
    ensures
        exists|virt: usize|
            {
                &&& before.map_step(made.phys_base(), made.byte_len(), virt, made.mapper())
                &&& used.mapper().unmap_step(virt, made.byte_len(), after)
            },
{
}

/// Where `T`'s `==` is identity, two arrays of one length compare equal
/// exactly when they hold the same values.
pub proof fn lemma_eq_iff_same_contents<T: PartialEq>(a: Seq<T>, b: Seq<T>)
    requires
        a.len() == b.len(),
        forall|x: T, y: T| #[trigger] x.eq_spec(&y) <==> x == y,
    ensures
        pairwise_eq(a, b) <==> a == b,
{
    if pairwise_eq(a, b) {
        assert forall|j: int| 0 <= j < a.len() implies a[j] == b[j] by {
            assert(a[j].eq_spec(&b[j]));
        }
        assert(a =~= b);
    }
}

} // verus!
