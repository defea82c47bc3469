//! The raw numeric error-code channel, wrapped as a two-outcome result.
//!
//! The host reports every map operation through a single signed integer:
//! `0` means success and any nonzero value is an opaque failure code. This
//! module wraps that convention; it does not interpret specific nonzero
//! values itself.

use vstd::prelude::*;

verus! {

/// Lifts a raw signed status code into a two-outcome result: `Ok` exactly
/// for zero, `Err` carrying the code otherwise.
pub trait IntoResult {
    /// The result this status code stands for.
    spec fn spec_ok(&self) -> Result<(), Errno>;

    fn ok(&self) -> (r: Result<(), Errno>)
        ensures
            r == self.spec_ok(),
    ;
}

impl IntoResult for i32 {
    open spec fn spec_ok(&self) -> Result<(), Errno> {
        if *self == 0 {
            Ok(())
        } else {
            Err(Errno(*self))
        }
    }

    fn ok(&self) -> (r: Result<(), Errno>) {
        if *self == 0 {
            Ok(())
        } else {
            Err(Errno(*self))
        }
    }
}

/// An opaque nonzero failure code from the host. Translating a code to a
/// human-readable reason needs a platform lookup and lives outside the
/// verified library.
#[derive(Clone, Copy, Debug, PartialEq, Eq, Structural)]
pub struct Errno(pub i32);

impl Errno {
    /// The raw code itself.
    pub fn code(&self) -> (r: i32)
        ensures
            r == self.0,
    {
        self.0
    }
}

impl PartialEq<i32> for Errno {
    fn eq(&self, other: &i32) -> (r: bool)
        ensures
            r == (self.0 == *other),
    {
        self.0 == *other
    }
}

impl vstd::std_specs::cmp::PartialEqSpecImpl<i32> for Errno {
    open spec fn obeys_eq_spec() -> bool {
        true
    }

    open spec fn eq_spec(&self, other: &i32) -> bool {
        self.0 == *other
    }
}

impl From<i32> for Errno {
    fn from(i: i32) -> (r: Errno)
        ensures
            r == Errno(i),
    {
        Errno(i)
    }
}

impl vstd::std_specs::convert::FromSpecImpl<i32> for Errno {
    open spec fn obeys_from_spec() -> bool {
        true
    }

    open spec fn from_spec(i: i32) -> Errno {
        Errno(i)
    }
}

impl From<Errno> for i32 {
    fn from(e: Errno) -> (r: i32)
        ensures
            r == e.0,
    {
        e.0
    }
}

impl vstd::std_specs::convert::FromSpecImpl<Errno> for i32 {
    open spec fn obeys_from_spec() -> bool {
        true
    }

    open spec fn from_spec(e: Errno) -> i32 {
        e.0
    }
}

} // verus!
