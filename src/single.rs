//! An accessor to a single value on memory.
use core::marker::PhantomData;
use vstd::layout::{align_of, size_of};
use vstd::pervasive::runtime_assert;
use vstd::prelude::*;
use vstd::std_specs::cmp::{OrdSpec, PartialEqSpec, PartialOrdSpec};

use crate::error::Error;
use crate::mapper::{Mapper, Memory};
use crate::marker::{self, AccessorTypeSpecifier, Readable, Writable};
use crate::{aligned_for, is_aligned};

verus! {

/// An alias of [`ReadWrite`], under its older name.
pub type Single<T, M> = ReadWrite<T, M>;

/// A readable and writable accessor.
pub type ReadWrite<T, M> = Generic<T, M, marker::ReadWrite>;

/// A read-only accessor.
pub type ReadOnly<T, M> = Generic<T, M, marker::ReadOnly>;

/// A write-only accessor.
pub type WriteOnly<T, M> = Generic<T, M, marker::WriteOnly>;

/// Whether `a` lies outside the `T` that starts at `virt`.
pub open spec fn apart<T>(a: usize, virt: usize) -> bool {
    a != virt && (a + size_of::<T>() <= virt || virt + size_of::<T>() <= a)
}

/// An accessor to read, modify, and write a single value of `T` on memory.
///
/// It maps the value's bytes once, when it is made, and reads and writes them
/// through its mapper's memory; `close` unmaps them and hands the mapper back.
/// An accessor that is dropped without `close` leaves its region mapped.
pub struct Generic<T, M, A> where M: Mapper + Memory<T>, A: AccessorTypeSpecifier {
    virt: usize,
    bytes: usize,
    phys: Ghost<usize>,
    mapper: M,
    _marker: PhantomData<T>,
    _readable_writable: PhantomData<A>,
}

impl<T, M, A> Generic<T, M, A> where M: Mapper + Memory<T>, A: AccessorTypeSpecifier {
    /// Whether the accessor is well formed: it covers one `T`, inside the
    /// address space.
    pub closed spec fn wf(&self) -> bool {
        &&& self.bytes == size_of::<T>()
        &&& self.virt + self.bytes <= usize::MAX
    }

    /// The virtual address of the value, which `map` returned.
    pub closed spec fn virt_base(&self) -> usize {
        self.virt
    }

    /// The physical address that `map` was given.
    pub closed spec fn phys_base(&self) -> usize {
        self.phys@
    }

    /// The length of the mapped region in bytes.
    pub closed spec fn byte_len(&self) -> usize {
        self.bytes
    }

    /// The mapper that the accessor owns, with its memory.
    pub closed spec fn mapper(&self) -> M {
        self.mapper
    }

    /// Whether the value lies in plain memory.
    pub open spec fn is_plain(&self) -> bool {
        self.mapper().plain(self.virt_base())
    }

    /// Creates a new accessor to a value of `T` at the physical address
    /// `phys_base`, which it maps with one call `map(phys_base, size_of::<T>())`.
    ///
    /// The value at `phys_base` must be valid, and no other accessor may reach
    /// it while the returned one lives. This method panics if `phys_base` is
    /// not aligned as `T` requires.
    pub fn new(phys_base: usize, mapper: M) -> (r: Self)
        requires
            aligned_for::<T>(phys_base as int),
            phys_base + size_of::<T>() <= usize::MAX,
        ensures
            r.wf(),
            r.phys_base() == phys_base,
            r.byte_len() == size_of::<T>(),
            mapper.map_step(phys_base, r.byte_len(), r.virt_base(), r.mapper()),
    {
        runtime_assert(is_aligned::<T>(phys_base));
        let mut mapper = mapper;
        let bytes = core::mem::size_of::<T>();
        let virt = mapper.map(phys_base, bytes);
        Generic {
            virt,
            bytes,
            phys: Ghost(phys_base),
            mapper,
            _marker: PhantomData,
            _readable_writable: PhantomData,
        }
    }

    /// Creates a new accessor to a value of `T` at the physical address
    /// `phys_base`, or returns `NotAligned` if `phys_base` is not aligned as
    /// `T` requires. On an error nothing is mapped.
    pub fn try_new(phys_base: usize, mapper: M) -> (r: Result<Self, Error>)
        requires
            aligned_for::<T>(phys_base as int) ==> phys_base + size_of::<T>() <= usize::MAX,
        ensures
            !aligned_for::<T>(phys_base as int) ==> r == Err::<Self, Error>(
                Error::NotAligned { address: phys_base, alignment: align_of::<T>() as usize },
            ),
            aligned_for::<T>(phys_base as int) ==> {
                &&& r is Ok
                &&& r->Ok_0.wf()
                &&& r->Ok_0.phys_base() == phys_base
                &&& r->Ok_0.byte_len() == size_of::<T>()
                &&& mapper.map_step(
                    phys_base,
                    r->Ok_0.byte_len(),
                    r->Ok_0.virt_base(),
                    r->Ok_0.mapper(),
                )
            },
    {
        if is_aligned::<T>(phys_base) {
            Ok(Self::new(phys_base, mapper))
        } else {
            Err(Error::NotAligned { alignment: core::mem::align_of::<T>(), address: phys_base })
        }
    }

    /// Unmaps the value with one call `unmap(virt, size_of::<T>())`, where
    /// `virt` is the address that `map` returned, and hands the mapper back.
    pub fn close(self) -> (m: M)
        requires
            self.wf(),
        ensures
            self.mapper().unmap_step(self.virt_base(), self.byte_len(), m),
    {
        let Generic { virt, bytes, mut mapper, .. } = self;
        mapper.unmap(virt, bytes);
        mapper
    }
}

impl<T, M, A> View for Generic<T, M, A> where M: Mapper + Memory<T>, A: AccessorTypeSpecifier {
    type V = T;

    /// The value that the memory holds now.
    open spec fn view(&self) -> T {
        self.mapper().value_at(self.virt_base())
    }
}

impl<T, M, A> Generic<T, M, A> where M: Mapper + Memory<T>, A: Readable {
    /// Reads the value with a volatile load. In plain memory it yields what
    /// the memory holds.
    pub fn read_volatile(&self) -> (r: T)
        requires
            self.wf(),
        ensures
            self.is_plain() ==> r == self@,
    {
        self.mapper.read_volatile(self.virt)
    }

    /// Alias of [`Generic::read_volatile`].
    pub fn read(&self) -> (r: T)
        requires
            self.wf(),
        ensures
            self.is_plain() ==> r == self@,
    {
        self.read_volatile()
    }
}

impl<T, M, A> Generic<T, M, A> where M: Mapper + Memory<T>, A: Writable {
    /// Writes `v` with a volatile store. In plain memory the value is then
    /// `v`; plain memory outside the value keeps what it held.
    pub fn write_volatile(&mut self, v: T)
        requires
            old(self).wf(),
        ensures
            final(self).wf(),
            final(self).virt_base() == old(self).virt_base(),
            final(self).phys_base() == old(self).phys_base(),
            final(self).byte_len() == old(self).byte_len(),
            forall|a: usize| #[trigger]
                final(self).mapper().plain(a) == old(self).mapper().plain(a),
            old(self).is_plain() ==> final(self)@ == v,
            forall|a: usize|
                old(self).mapper().plain(a) && apart::<T>(a, old(self).virt_base())
                    ==> #[trigger] final(self).mapper().value_at(a) == old(self).mapper().value_at(a),
    {
        self.mapper.write_volatile(self.virt, v);
    }

    /// Alias of [`Generic::write_volatile`].
    pub fn write(&mut self, v: T)
        requires
            old(self).wf(),
        ensures
            final(self).wf(),
            final(self).virt_base() == old(self).virt_base(),
            final(self).phys_base() == old(self).phys_base(),
            final(self).byte_len() == old(self).byte_len(),
            forall|a: usize| #[trigger]
                final(self).mapper().plain(a) == old(self).mapper().plain(a),
            old(self).is_plain() ==> final(self)@ == v,
            forall|a: usize|
                old(self).mapper().plain(a) && apart::<T>(a, old(self).virt_base())
                    ==> #[trigger] final(self).mapper().value_at(a) == old(self).mapper().value_at(a),
    {
        self.write_volatile(v);
    }
}

impl<T, M, A> Generic<T, M, A> where M: Mapper + Memory<T>, A: Readable + Writable {
    /// Updates the value by reading it, applying `f` to it, and writing the
    /// result back. In plain memory the value is then what `f` returned for
    /// the old one.
    ///
    /// Some memory-mapped registers read as a fixed value, such as 0, whatever
    /// was written to them. On such a register, update once at most: a second
    /// update starts from the fixed value, not from the first one's result.
    pub fn update_volatile<F>(&mut self, f: F)
        where
            F: FnOnce(T) -> T,
        requires
            old(self).wf(),
            forall|x: T| f.requires((x,)),
        ensures
            final(self).wf(),
            final(self).virt_base() == old(self).virt_base(),
            final(self).phys_base() == old(self).phys_base(),
            final(self).byte_len() == old(self).byte_len(),
            forall|a: usize| #[trigger]
                final(self).mapper().plain(a) == old(self).mapper().plain(a),
            old(self).is_plain() ==> f.ensures((old(self)@,), final(self)@),
            forall|a: usize|
                old(self).mapper().plain(a) && apart::<T>(a, old(self).virt_base())
                    ==> #[trigger] final(self).mapper().value_at(a) == old(self).mapper().value_at(a),
    {
        let v = self.read_volatile();
        let w = f(v);
        self.write_volatile(w);
    }

    /// Alias of [`Generic::update_volatile`].
    pub fn update<F>(&mut self, f: F)
        where
            F: FnOnce(T) -> T,
        requires
            old(self).wf(),
            forall|x: T| f.requires((x,)),
        ensures
            final(self).wf(),
            final(self).virt_base() == old(self).virt_base(),
            final(self).phys_base() == old(self).phys_base(),
            final(self).byte_len() == old(self).byte_len(),
            forall|a: usize| #[trigger]
                final(self).mapper().plain(a) == old(self).mapper().plain(a),
            old(self).is_plain() ==> f.ensures((old(self)@,), final(self)@),
            forall|a: usize|
                old(self).mapper().plain(a) && apart::<T>(a, old(self).virt_base())
                    ==> #[trigger] final(self).mapper().value_at(a) == old(self).mapper().value_at(a),
    {
        self.update_volatile(f);
    }
}

impl<T, M, A> Generic<T, M, A> where M: Mapper + Memory<T>, A: Readable {
    /// Whether the two values are equal, read with volatile loads.
    ///
    /// The result is stated for values in plain memory, when `T`'s `==`
    /// follows its specification, as it does for the integer types.
    pub fn eq(&self, other: &Self) -> (r: bool)
        where
            T: PartialEq,
        requires
            self.wf(),
            other.wf(),
        ensures
            T::obeys_eq_spec() && self.is_plain() && other.is_plain() ==> r == self@.eq_spec(
                &other@,
            ),
    {
        self.read_volatile().eq(&other.read_volatile())
    }

    /// Compares the two values, read with volatile loads.
    pub fn partial_cmp(&self, other: &Self) -> (r: Option<core::cmp::Ordering>)
        where
            T: PartialOrd,
        requires
            self.wf(),
            other.wf(),
        ensures
            T::obeys_partial_cmp_spec() && self.is_plain() && other.is_plain() ==> r
                == self@.partial_cmp_spec(&other@),
    {
        self.read_volatile().partial_cmp(&other.read_volatile())
    }

    /// Compares the two values, read with volatile loads, by a total order.
    pub fn cmp(&self, other: &Self) -> (r: core::cmp::Ordering)
        where
            T: Ord,
        requires
            self.wf(),
            other.wf(),
        ensures
            T::obeys_cmp_spec() && self.is_plain() && other.is_plain() ==> r == self@.cmp_spec(
                &other@,
            ),
    {
        self.read_volatile().cmp(&other.read_volatile())
    }
}

/// The one `unmap` that `close` makes gets the address that the one `map` of
/// `new` returned for `phys_base`, and the length that `map` was given.
pub proof fn lemma_close_unmaps_what_new_mapped<T, M, A>(
    before: M,
    made: Generic<T, M, A>,
    used: Generic<T, M, A>,
    after: M,
)
    where
        M: Mapper + Memory<T>,
        A: AccessorTypeSpecifier,
    requires
        before.map_step(made.phys_base(), made.byte_len(), made.virt_base(), made.mapper()),
        used.virt_base() == made.virt_base(),
        used.byte_len() == made.byte_len(),
        used.mapper().unmap_step(used.virt_base(), used.byte_len(), after),
    ensures
        exists|virt: usize|
            {
                &&& before.map_step(made.phys_base(), made.byte_len(), virt, made.mapper())
                &&& used.mapper().unmap_step(virt, made.byte_len(), after)
            },
{
}

/// With a mapper that maps each address to itself, the accessor reads and
/// writes the value at the physical address that it was made for.
pub proof fn lemma_identity_mapped_value<T, M, A>(before: M, a: Generic<T, M, A>)
    where
        M: Mapper + Memory<T>,
        A: AccessorTypeSpecifier,
    requires
        forall|p: usize, b: usize, v: usize, m: M| #[trigger] before.map_step(p, b, v, m) ==> v == p,
        before.map_step(a.phys_base(), a.byte_len(), a.virt_base(), a.mapper()),
    ensures
        a.virt_base() == a.phys_base(),
        a@ == a.mapper().value_at(a.phys_base()),
{
}

} // verus!
