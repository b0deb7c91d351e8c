//! Typed volatile access to memory regions, such as the registers of a
//! memory-mapped device, with the permission to read or write fixed by type.
//!
//! An accessor maps its region through a [`Mapper`] when it is made, reads and
//! writes it through that mapper's [`Memory`], and hands the mapping back with
//! `close`: an accessor dropped without `close` leaves its region mapped. Its capability marker ([`marker::ReadOnly`], [`marker::WriteOnly`]
//! or [`marker::ReadWrite`]) decides at compile time which operations exist.
use vstd::prelude::*;

pub mod array;
pub mod error;
pub mod mapper;
pub mod marker;
pub mod single;

pub use error::Error;
pub use mapper::{Identity, Mapper, Memory};

verus! {

/// An alias of [`array::ReadWrite`], under its older name.
pub type Array<T, M> = array::ReadWrite<T, M>;

/// An alias of [`single::ReadWrite`], under its older name.
pub type Single<T, M> = single::ReadWrite<T, M>;

/// Whether `addr` is a multiple of the alignment of `T`.
pub open spec fn aligned_for<T>(addr: int) -> bool {
    addr % (vstd::layout::align_of::<T>() as int) == 0
}

/// Whether `phys_base` satisfies the alignment that `T` requires.
pub(crate) fn is_aligned<T>(phys_base: usize) -> (r: bool)
    ensures
        r == aligned_for::<T>(phys_base as int),
{
    vstd::layout::layout_for_type_is_valid::<T>();
    phys_base % core::mem::align_of::<T>() == 0
}

} // verus!
