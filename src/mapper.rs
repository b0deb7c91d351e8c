//! The mapper through which accessors make memory addressable, and the memory
//! that they load from and store to.
use vstd::layout::size_of;
use vstd::prelude::*;

verus! {

/// Makes regions of physical memory addressable.
///
/// An accessor owns its mapper. It calls `map` once when it is made and
/// `unmap` once, with the address that `map` returned and the same length,
/// when it is closed.
pub trait Mapper: Sized {
    /// Whether `map(phys_start, bytes)`, called on a mapper in this state, may
    /// return `virt` and leave the mapper as `after`.
    ///
    /// An implementation that is verified states its own relation here and in
    /// `unmap_step`. The defaults only let an implementation that is not
    /// verified compile: they say nothing, and what is proved of a mapper of
    /// any type never rests on them.
    closed spec fn map_step(&self, phys_start: usize, bytes: usize, virt: usize, after: Self) -> bool {
        true
    }

    /// Whether `unmap(virt_start, bytes)`, called on a mapper in this state,
    /// may leave the mapper as `after`.
    closed spec fn unmap_step(&self, virt_start: usize, bytes: usize, after: Self) -> bool {
        true
    }

    /// Maps `bytes` bytes of physical memory starting at `phys_start` and
    /// returns their first virtual address.
    ///
    /// The caller makes sure that no other live access to the region conflicts
    /// with the one it is about to make. Depending on the implementation, this
    /// method may panic on a null or otherwise invalid physical address.
    fn map(&mut self, phys_start: usize, bytes: usize) -> (virt: usize)
        requires
            phys_start + bytes <= usize::MAX,
        ensures
            virt + bytes <= usize::MAX,
            old(self).map_step(phys_start, bytes, virt, *final(self)),
    ;

    /// Unmaps the `bytes` bytes of virtual memory starting at `virt_start`,
    /// which an earlier `map` returned with that length.
    fn unmap(&mut self, virt_start: usize, bytes: usize)
        ensures
            old(self).unmap_step(virt_start, bytes, *final(self)),
    ;
}

/// The trivial mapper, which maps an address into itself.
///
/// It serves two purposes:
/// - It maps a physical address into the virtual address of the same value,
///   which is what code that reaches the physical address space directly (an
///   OS kernel) needs.
/// - It maps an already-mapped virtual address into itself, which spares other
///   mappers a second mapping of the same region.
///
/// It does not reject the null address: it maps it to itself too.
#[derive(Clone, Copy, PartialEq, Eq, Structural, PartialOrd, Ord, Hash, Debug)]
pub struct Identity;

impl Mapper for Identity {
    open spec fn map_step(&self, phys_start: usize, bytes: usize, virt: usize, after: Self) -> bool {
        virt == phys_start
    }

    open spec fn unmap_step(&self, virt_start: usize, bytes: usize, after: Self) -> bool {
        true
    }

    fn map(&mut self, phys_start: usize, bytes: usize) -> (virt: usize) {
        phys_start
    }

    fn unmap(&mut self, virt_start: usize, bytes: usize) {
    }
}

/// Memory that holds values of `T` at virtual addresses, and performs the
/// volatile loads and stores of them.
///
/// Some of it may be device registers, whose value can change between two
/// loads, or which read back a fixed value whatever was stored. What a load
/// yields is stated only where the model calls the memory plain: ordinary
/// memory that nothing but these stores changes.
pub trait Memory<T> {
    /// The value that the `T` at `virt` holds now.
    ///
    /// An implementation that is verified gives its own model here and in
    /// `plain`. The defaults only let an implementation that is not verified
    /// compile: they call no memory plain, and what is proved of memory of any
    /// type never rests on them.
    closed spec fn value_at(&self, virt: usize) -> T {
        vstd::pervasive::arbitrary()
    }

    /// Whether the `T` at `virt` is plain memory: a load yields what it holds,
    /// and only a store changes it.
    closed spec fn plain(&self, virt: usize) -> bool {
        false
    }

    /// Loads the `T` at `virt` with a volatile read.
    fn read_volatile(&self, virt: usize) -> (v: T)
        ensures
            self.plain(virt) ==> v == self.value_at(virt),
    ;

    /// Stores `v` at `virt` with a volatile write. Plain memory that does not
    /// overlap the `T` at `virt` keeps its value.
    fn write_volatile(&mut self, virt: usize, v: T)
        ensures
            forall|a: usize| #[trigger] final(self).plain(a) == old(self).plain(a),
            old(self).plain(virt) ==> final(self).value_at(virt) == v,
            forall|a: usize|
                old(self).plain(a) && a != virt && (a + size_of::<T>() <= virt || virt
                    + size_of::<T>() <= a)
                    ==> #[trigger] final(self).value_at(a) == old(self).value_at(a),
    ;
}

} // verus!
