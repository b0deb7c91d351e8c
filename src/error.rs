//! Errors of the fallible constructors.
use vstd::arithmetic::div_mod::lemma_div_decreases;
use vstd::prelude::*;
use vstd::string::{StrSliceExecFns, StringExecFns};

verus! {

/// Why an accessor could not be made.
#[derive(Clone, Copy, PartialEq, Eq, Structural, PartialOrd, Ord, Hash, Debug)]
pub enum Error {
    /// The address passed as an argument is not aligned correctly; for
    /// instance `NotAligned { address: 0x1001, alignment: 4 }` says that the
    /// address 0x1001 is not 4 byte aligned.
    NotAligned {
        /// The address passed as an argument.
        address: usize,
        /// The address must be `alignment` byte aligned.
        alignment: usize,
    },
    /// Attempted to create an empty array accessor.
    EmptyArray,
}

/// The characters that stand for the digits 0 to 15.
pub const DIGITS: &'static str = "0123456789ABCDEF";

/// The character that stands for the digit `d`, as a string of one.
pub open spec fn digit(d: int) -> Seq<char> {
    DIGITS@.subrange(d, d + 1)
}

/// The digits of `n` in base `radix`, most significant first, with no
/// leading zero; `n == 0` has the one digit 0.
pub open spec fn digits(n: nat, radix: nat) -> Seq<char>
    decreases n,
    via digits_decreases
{
    if radix < 2 {
        Seq::empty()
    } else if n < radix {
        digit(n as int)
    } else {
        digits(n / radix, radix) + digit((n % radix) as int)
    }
}

#[via_fn]
proof fn digits_decreases(n: nat, radix: nat) {
    if radix >= 2 && n >= radix {
        lemma_div_decreases(n as int, radix as int);
    }
}

/// What an error says to a person: the address in upper-case hexadecimal
/// and the alignment in decimal.
pub open spec fn message_of(e: Error) -> Seq<char> {
    match e {
        Error::NotAligned { address, alignment } => "Address 0x"@ + digits(address as nat, 16)
            + " is not "@ + digits(alignment as nat, 10) + " byte aligned."@,
        Error::EmptyArray => "Attempted to create an empty array accessor."@,
    }
}

/// Appends the digits of `n` in base `radix` to `s`.
fn push_digits(s: &mut String, n: usize, radix: usize)
    requires
        2 <= radix <= 16,
    ensures
        final(s)@ == old(s)@ + digits(n as nat, radix as nat),
    decreases n,
{
    proof {
        reveal_strlit("0123456789ABCDEF");
    }
    if n >= radix {
        push_digits(s, n / radix, radix);
    }
    let d = n % radix;
    s.append(DIGITS.substring_char(d, d + 1));
    proof {
        if n >= radix {
            assert(final(s)@ =~= old(s)@ + digits(n as nat, radix as nat));
        }
    }
}

impl Error {
    /// Describes the error for a person to read, for instance "Address
    /// 0x1001 is not 4 byte aligned."
    pub fn message(&self) -> (r: String)
        ensures
            r@ == message_of(*self),
    {
        match self {
            Error::NotAligned { alignment, address } => {
                let mut s = String::from_str("Address 0x");
                push_digits(&mut s, *address, 16);
                s.append(" is not ");
                push_digits(&mut s, *alignment, 10);
                s.append(" byte aligned.");
                proof {
                    assert(s@ =~= message_of(*self));
                }
                s
            },
            Error::EmptyArray => String::from_str("Attempted to create an empty array accessor."),
        }
    }
}

} // verus!
