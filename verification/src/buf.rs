//! The raw buffer interface and the overlay's chaining primitives.
//!
//! A [`Buffer`] exposes the half-open address range `[start, end)` of the
//! current packet and a `check_bounds` operation; on top of those, the
//! provided methods produce typed, bounds-checked views ([`Layer`]) at
//! arbitrary addresses and chain them one after another. Either the whole
//! fixed-size record fits inside the buffer or the call fails with
//! [`Error::OutOfBounds`] and no view is produced.

use vstd::prelude::*;

use crate::bindings::{ethhdr, Header};
use crate::net::{layer_fits, Error, Ethernet, Layer};
use crate::xdp::Context;

verus! {

/// A bounded, host-owned byte region that typed views are carved out of.
pub trait Buffer: Sized {
    /// First address of the readable extent.
    spec fn start(&self) -> int;

    /// One past the last address of the readable extent.
    spec fn end(&self) -> int;

    /// Well-formedness carried by every buffer the host hands out.
    spec fn inv(&self) -> bool;

    /// The extent of a well-formed buffer lies within the address space.
    proof fn start_end_bounds(&self)
        requires
            self.inv(),
        ensures
            0 <= self.start() <= self.end() <= usize::MAX,
    ;

    fn data_start(&self) -> (r: usize)
        requires
            self.inv(),
        ensures
            r as int == self.start(),
    ;

    fn data_end(&self) -> (r: usize)
        requires
            self.inv(),
        ensures
            r as int == self.end(),
    ;

    /// Succeeds exactly when `[lo, hi)` is a well-formed range contained in
    /// `[start, end)`; every failure is `OutOfBounds`.
    fn check_bounds(&self, lo: usize, hi: usize) -> (r: Result<(), Error>)
        requires
            self.inv(),
        ensures
            (r is Ok <==> self.start() <= lo as int && lo <= hi && hi as int <= self.end()),
            (r is Err ==> r == Err::<(), Error>(Error::OutOfBounds)),
    ;

    /// Produces the typed view of the `T`-sized record at `addr`. It
    /// succeeds exactly when `[addr, addr + sizeof(T))` lies inside
    /// `[start, end)`, and on success the view aliases that exact range;
    /// otherwise nothing is produced and the error is `OutOfBounds`.
    fn layer_at<T: Header>(&self, addr: usize) -> (r: Result<Layer<T>, Error>)
        requires
            self.inv(),
        ensures
            (r is Ok <==> layer_fits(self.start(), self.end(), addr as int, T::spec_size())),
            (r matches Ok(l) ==> l.addr() == addr as int),
            (r is Err ==> r == Err::<Layer<T>, Error>(Error::OutOfBounds)),
    {
        let size = T::size();
        if addr <= usize::MAX - size {
            match self.check_bounds(addr, addr + size) {
                Ok(_) => Ok(Layer::<T>::from_addr(addr)),
                Err(_) => Err(Error::OutOfBounds),
            }
        } else {
            proof {
                self.start_end_bounds();
            }
            Err(Error::OutOfBounds)
        }
    }

    /// The sole chaining primitive: the next view begins at the address
    /// immediately following `hdr`'s fixed-size record, re-validated
    /// independently. It succeeds exactly when `layer_at::<H>` at
    /// `hdr.addr + sizeof(T)` would succeed, and never skips or shifts
    /// bytes. No discriminant field is consulted; the caller chooses `H`
    /// from a prior read.
    fn layer_after<T: Header, H: Header>(&self, hdr: &Layer<T>) -> (r: Result<Layer<H>, Error>)
        requires
            self.inv(),
        ensures
            (r is Ok <==> layer_fits(
                self.start(),
                self.end(),
                hdr.addr() + T::spec_size(),
                H::spec_size(),
            )),
            (r matches Ok(l) ==> l.addr() == hdr.addr() + T::spec_size()),
            (r is Err ==> r == Err::<Layer<H>, Error>(Error::OutOfBounds)),
    {
        let size = T::size();
        let a = hdr.as_ptr();
        if a <= usize::MAX - size {
            self.layer_at::<H>(a + size)
        } else {
            proof {
                self.start_end_bounds();
            }
            Err(Error::OutOfBounds)
        }
    }

    /// The packet's Ethernet header, if one fits: exactly
    /// `layer_at::<ethhdr>(start)`.
    fn ethernet(&self) -> (r: Result<Ethernet, Error>)
        requires
            self.inv(),
        ensures
            (r is Ok <==> layer_fits(self.start(), self.end(), self.start(), ethhdr::spec_size())),
            (r matches Ok(l) ==> l.addr() == self.start()),
            (r is Err ==> r == Err::<Ethernet, Error>(Error::OutOfBounds)),
    {
        let s = self.data_start();
        self.layer_at::<ethhdr>(s)
    }
}

impl Buffer for Context {
    open spec fn start(&self) -> int {
        self.base as int
    }

    open spec fn end(&self) -> int {
        self.base + self.data@.len()
    }

    open spec fn inv(&self) -> bool {
        self.base + self.data@.len() <= usize::MAX
    }

    proof fn start_end_bounds(&self) {
    }

    fn data_start(&self) -> usize {
        self.base
    }

    fn data_end(&self) -> usize {
        self.base + self.data.len()
    }

    fn check_bounds(&self, lo: usize, hi: usize) -> (r: Result<(), Error>) {
        if self.base <= lo && lo <= hi && hi <= self.base + self.data.len() {
            Ok(())
        } else {
            Err(Error::OutOfBounds)
        }
    }
}

} // verus!
