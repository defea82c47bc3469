//! The per-invocation packet context: one bounded, host-owned byte region.
//!
//! The host hands the packet program exactly one [`Context`] per invocation.
//! It is modelled as the half-open address range `[base, base + data.len())`
//! over an explicit byte store, so that every access the overlay grants can
//! be checked against the live extent. The field reads and writes below are
//! the only way a typed view touches packet memory, and each one carries the
//! bounds obligation in its `requires`.

use vstd::prelude::*;

use crate::buf::Buffer;

verus! {

/// The raw buffer of the current invocation: the bytes of one packet,
/// addressed from `base`. The host owns it; the overlay only shapes access
/// to it. The readable and writable extent is `[base, base + data.len())`
/// and does not change during the invocation.
pub struct Context {
    /// First valid address of the packet bytes.
    pub base: usize,
    /// The packet bytes themselves, `data[k]` living at address `base + k`.
    pub data: Vec<u8>,
}

/// `s` with the two disjoint ranges `[i, i + len)` and `[j, j + len)`
/// exchanged byte for byte and everything else unchanged.
pub open spec fn swapped(s: Seq<u8>, i: int, j: int, len: int) -> Seq<u8> {
    Seq::new(
        s.len(),
        |k: int|
            if i <= k < i + len {
                s[k - i + j]
            } else if j <= k < j + len {
                s[k - j + i]
            } else {
                s[k]
            },
    )
}

/// Exchanging the same two disjoint ranges twice restores the original
/// byte sequence exactly: the exchange an address swap performs is an
/// involution, so a second `swap_addr` of the same header undoes the
/// first.
pub proof fn lemma_swapped_involutive(s: Seq<u8>, i: int, j: int, len: int)
    requires
        0 <= len,
        0 <= i,
        i + len <= s.len(),
        0 <= j,
        j + len <= s.len(),
        i + len <= j || j + len <= i,
    ensures
        swapped(swapped(s, i, j, len), i, j, len) == s,
{
    assert(swapped(swapped(s, i, j, len), i, j, len) =~= s);
}

impl Context {
    /// The packet bytes as a mathematical sequence.
    pub open spec fn bytes(&self) -> Seq<u8> {
        self.data@
    }

    /// The byte stored at address `a`.
    pub open spec fn byte_at(&self, a: int) -> u8 {
        self.data@[a - self.base]
    }

    /// The big-endian 16-bit word stored at addresses `a`, `a + 1`.
    pub open spec fn be16_at(&self, a: int) -> u16 {
        (self.byte_at(a) as int * 256 + self.byte_at(a + 1) as int) as u16
    }

    /// Wraps the byte region `[base, base + data.len())` as the packet
    /// buffer of one invocation.
    pub fn new(base: usize, data: Vec<u8>) -> (r: Context)
        requires
            base + data@.len() <= usize::MAX,
        ensures
            r.base == base,
            r.data@ == data@,
            r.inv(),
    {
        Context { base, data }
    }

    /// Reads the byte at address `addr`.
    pub fn load(&self, addr: usize) -> (r: u8)
        requires
            self.inv(),
            self.start() <= addr < self.end(),
        ensures
            r == self.byte_at(addr as int),
    {
        self.data[addr - self.base]
    }

    /// Writes the byte at address `addr`; no other byte changes.
    pub fn store(&mut self, addr: usize, v: u8)
        requires
            old(self).inv(),
            old(self).start() <= addr < old(self).end(),
        ensures
            final(self).base == old(self).base,
            final(self).data@ == old(self).data@.update(addr - old(self).base, v),
    {
        let k: usize = addr - self.base;
        self.data[k] = v;
    }

    /// Reads the big-endian 16-bit word at addresses `addr`, `addr + 1`.
    pub fn load_be16(&self, addr: usize) -> (r: u16)
        requires
            self.inv(),
            self.start() <= addr,
            addr + 2 <= self.end(),
        ensures
            r == self.be16_at(addr as int),
    {
        let hi = self.load(addr);
        let lo = self.load(addr + 1);
        (hi as u16) * 256 + (lo as u16)
    }

    /// Writes `v` big-endian at addresses `addr`, `addr + 1`; no other byte
    /// changes.
    pub fn store_be16(&mut self, addr: usize, v: u16)
        requires
            old(self).inv(),
            old(self).start() <= addr,
            addr + 2 <= old(self).end(),
        ensures
            final(self).base == old(self).base,
            final(self).data@ == old(self).data@.update(
                addr - old(self).base,
                (v / 256) as u8,
            ).update(addr + 1 - old(self).base, (v % 256) as u8),
    {
        self.store(addr, (v / 256) as u8);
        self.store(addr + 1, (v % 256) as u8);
    }

    /// Exchanges the bytes of the two disjoint address ranges
    /// `[a, a + len)` and `[b, b + len)`; every byte outside them is
    /// untouched.
    pub fn swap_ranges(&mut self, a: usize, b: usize, len: usize)
        requires
            old(self).inv(),
            old(self).start() <= a,
            a + len <= old(self).end(),
            old(self).start() <= b,
            b + len <= old(self).end(),
            a + len <= b || b + len <= a,
        ensures
            final(self).base == old(self).base,
            final(self).data@ == swapped(
                old(self).data@,
                a - old(self).base,
                b - old(self).base,
                len as int,
            ),
    {
        let ghost orig = self.data@;
        let ghost ii = a - self.base;
        let ghost jj = b - self.base;
        let mut k: usize = 0;
        while k < len
            invariant
                self.inv(),
                self.base == old(self).base,
                self.start() <= a,
                a + len <= self.end(),
                self.start() <= b,
                b + len <= self.end(),
                a + len <= b || b + len <= a,
                k <= len,
                ii == a - self.base,
                jj == b - self.base,
                self.data@ == swapped(orig, ii, jj, k as int),
            decreases len - k,
        {
            proof {
                assert(swapped(orig, ii, jj, k as int).len() == orig.len());
            }
            let x = self.load(a + k);
            let y = self.load(b + k);
            self.store(a + k, y);
            self.store(b + k, x);
            k = k + 1;
            proof {
                assert(self.data@ =~= swapped(orig, ii, jj, k as int));
            }
        }
        proof {
            assert(self.data@ == swapped(orig, ii, jj, len as int));
        }
    }
}

} // verus!
