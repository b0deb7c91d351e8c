//! Marker traits and types that say what an accessor may do.
use vstd::prelude::*;

verus! {

/// Implemented by the types that specify the kind of an accessor: whether it
/// can read a value, write a value, or both.
pub trait AccessorTypeSpecifier {
    /// Whether accessors of this kind may store values.
    spec fn may_write() -> bool;
}

/// Implemented by the kinds of accessor that can read a value.
pub trait Readable: AccessorTypeSpecifier {}

/// Implemented by the kinds of accessor that can write a value.
pub trait Writable: AccessorTypeSpecifier {
    /// A writable kind may store values.
    proof fn lemma_may_write()
        ensures
            Self::may_write(),
    ;
}

/// The accessor can only read a value.
pub struct ReadOnly(());

impl AccessorTypeSpecifier for ReadOnly {
    open spec fn may_write() -> bool {
        false
    }
}

impl Readable for ReadOnly {}

/// The accessor can only write a value.
pub struct WriteOnly(());

impl AccessorTypeSpecifier for WriteOnly {
    open spec fn may_write() -> bool {
        true
    }
}

impl Writable for WriteOnly {
    proof fn lemma_may_write() {
    }
}

/// The accessor can both read and write a value.
pub struct ReadWrite(());

impl AccessorTypeSpecifier for ReadWrite {
    open spec fn may_write() -> bool {
        true
    }
}

impl Readable for ReadWrite {}

impl Writable for ReadWrite {
    proof fn lemma_may_write() {
    }
}

} // verus!
