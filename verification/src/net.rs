//! Typed, non-owning, bounds-checked views onto the packet buffer.
//!
//! A [`Layer`] pairs an address with a header record type of known fixed
//! size. Views are produced only by the validated factories of
//! [`crate::buf::Buffer`]; reading or writing a field through a view
//! carries the proof that the whole record lies inside the live buffer.

use vstd::prelude::*;
use vstd::slice::slice_subrange;

use core::marker::PhantomData;

use crate::bindings::{
    __be16, __be32, ethhdr, icmp6hdr, icmphdr, in6_addr, iphdr, ipv6hdr, tcphdr, udphdr, Header, ETH_ALEN,
    ETH_DEST_OFF, ETH_PROTO_OFF, ETH_SOURCE_OFF, IP_ALEN, IP_DADDR_OFF, IP_FRAG_OFF,
    IP_SADDR_OFF, IPV6_ALEN, IPV6_DADDR_OFF, IPV6_SADDR_OFF,
};
use crate::xdp::{swapped, Context};

pub use crate::buf::Buffer;

verus! {

/// The overlay's single failure kind: a view's target range is not fully
/// inside the current buffer. Always recoverable by the caller, typically
/// by dropping the packet.
#[derive(Clone, Copy, Debug, PartialEq, Eq, Structural)]
pub enum Error {
    OutOfBounds,
    Other,
}

/// The bounds condition under which a record of `size` bytes at `addr`
/// fits the buffer extent `[start, end)`.
pub open spec fn layer_fits(start: int, end: int, addr: int, size: nat) -> bool {
    start <= addr && addr + size <= end
}

/// A non-owning, typed view: an address plus a phantom record-type tag of
/// known fixed size. Live views alias transient, host-owned memory and must
/// not be retained across invocations.
pub struct Layer<T: Header> {
    addr: usize,
    tag: PhantomData<T>,
}

impl<T: Header> Clone for Layer<T> {
    fn clone(&self) -> (r: Self)
        ensures
            r == *self,
    {
        Layer { addr: self.addr, tag: PhantomData }
    }
}

impl<T: Header> Copy for Layer<T> {

}

impl<T: Header> Layer<T> {
    /// The address this view begins at.
    pub closed spec fn addr(&self) -> int {
        self.addr as int
    }

    /// The record `[addr, addr + sizeof(T))` lies inside `ctx`'s extent, as
    /// established by the bounds check that constructed the view.
    pub open spec fn valid(&self, ctx: &Context) -> bool {
        layer_fits(ctx.start(), ctx.end(), self.addr(), T::spec_size())
    }

    /// Constructs the view at `addr` after a bounds check has succeeded.
    pub(crate) fn from_addr(addr: usize) -> (r: Self)
        ensures
            r.addr() == addr as int,
    {
        Layer { addr, tag: PhantomData }
    }

    /// Wraps a raw address, refusing only the null address. No bounds are
    /// checked here; a view made this way is usable once `valid` holds of
    /// the live buffer.
    pub fn new(addr: usize) -> (r: Option<Self>)
        ensures
            (r is Some <==> addr != 0),
            (r matches Some(l) ==> l.addr() == addr as int),
    {
        if addr != 0 {
            Some(Layer { addr, tag: PhantomData })
        } else {
            None
        }
    }

    /// The raw address this view begins at.
    pub fn as_ptr(&self) -> (r: usize)
        ensures
            r as int == self.addr(),
    {
        self.addr
    }

    /// The view of the `H`-sized record immediately following this one:
    /// exactly `layer_after` on the buffer.
    pub fn next<H: Header>(&self, ctx: &Context) -> (r: Result<Layer<H>, Error>)
        requires
            ctx.inv(),
        ensures
            (r is Ok <==> layer_fits(
                ctx.start(),
                ctx.end(),
                self.addr() + T::spec_size(),
                H::spec_size(),
            )),
            (r matches Ok(l) ==> l.addr() == self.addr() + T::spec_size()),
            (r is Err ==> r == Err::<Layer<H>, Error>(Error::OutOfBounds)),
    {
        ctx.layer_after::<T, H>(self)
    }

    /// The byte range from the end of this record to the end of the
    /// buffer, or nothing if even that start address falls outside the
    /// extent (a header that claims to exist with a truncated payload).
    pub fn payload<'a>(&self, ctx: &'a Context) -> (r: Option<&'a [u8]>)
        requires
            ctx.inv(),
        ensures
            (r is Some <==> ctx.start() <= self.addr() + T::spec_size() <= ctx.end()),
            (r matches Some(s) ==> s@ == ctx.bytes().subrange(
                self.addr() + T::spec_size() - ctx.start(),
                ctx.bytes().len() as int,
            )),
    {
        let size = T::size();
        if self.addr <= usize::MAX - size {
            let start = self.addr + size;
            if ctx.data_start() <= start && start <= ctx.data_end() {
                Some(slice_subrange(ctx.data.as_slice(), start - ctx.base, ctx.data.len()))
            } else {
                None
            }
        } else {
            proof {
                ctx.start_end_bounds();
            }
            None
        }
    }
}

/// An element width the sixteen bytes of an `in6_addr` can be grouped
/// into: bytes, big-endian 16-bit words, or big-endian 32-bit words.
pub trait Element: Sized {
    /// How many elements the sixteen bytes group into.
    spec fn spec_count() -> nat;

    /// The address bytes grouped as elements, big-endian.
    spec fn spec_elems(addr: &in6_addr) -> Seq<Self>;

    /// The sixteen bytes that store the elements `v`, big-endian.
    spec fn spec_bytes(v: Seq<Self>) -> Seq<u8>;

    /// Copies the address out as a sequence of elements.
    fn as_slice(addr: &in6_addr) -> (v: Vec<Self>)
        requires
            addr.wf(),
        ensures
            v@ == Self::spec_elems(addr),
            v@.len() == Self::spec_count(),
    ;

    /// Writes the elements `v` back over the address bytes.
    fn write_slice(addr: &mut in6_addr, v: &Vec<Self>)
        requires
            old(addr).wf(),
            v@.len() == Self::spec_count(),
        ensures
            final(addr).wf(),
            final(addr).octets@ == Self::spec_bytes(v@),
    ;
}

impl Element for u8 {
    open spec fn spec_count() -> nat {
        16
    }

    open spec fn spec_elems(addr: &in6_addr) -> Seq<u8> {
        addr.octets@
    }

    open spec fn spec_bytes(v: Seq<u8>) -> Seq<u8> {
        v
    }

    fn as_slice(addr: &in6_addr) -> (v: Vec<u8>) {
        let mut v: Vec<u8> = Vec::new();
        let mut i: usize = 0;
        while i < 16
            invariant
                addr.wf(),
                i <= 16,
                v@ == addr.octets@.take(i as int),
            decreases 16 - i,
        {
            v.push(addr.octets[i]);
            proof {
                assert(v@ =~= addr.octets@.take(i as int + 1));
            }
            i = i + 1;
        }
        proof {
            assert(v@ =~= addr.octets@);
        }
        v
    }

    fn write_slice(addr: &mut in6_addr, v: &Vec<u8>) {
        let mut i: usize = 0;
        while i < 16
            invariant
                addr.octets@.len() == 16,
                v@.len() == 16,
                i <= 16,
                addr.octets@ == Seq::new(
                    16,
                    |k: int|
                        if k < i {
                            v@[k]
                        } else {
                            old(addr).octets@[k]
                        },
                ),
            decreases 16 - i,
        {
            addr.octets[i] = v[i];
            proof {
                assert(addr.octets@ =~= Seq::new(
                    16,
                    |k: int|
                        if k < i + 1 {
                            v@[k]
                        } else {
                            old(addr).octets@[k]
                        },
                ));
            }
            i = i + 1;
        }
        proof {
            assert(addr.octets@ =~= v@);
        }
    }
}

impl Element for __be16 {
    open spec fn spec_count() -> nat {
        8
    }

    open spec fn spec_elems(addr: &in6_addr) -> Seq<u16> {
        Seq::new(8, |i: int| (addr.octets@[2 * i] * 256 + addr.octets@[2 * i + 1]) as u16)
    }

    open spec fn spec_bytes(v: Seq<u16>) -> Seq<u8> {
        Seq::new(
            16,
            |k: int|
                if k % 2 == 0 {
                    (v[k / 2] / 256) as u8
                } else {
                    (v[k / 2] % 256) as u8
                },
        )
    }

    fn as_slice(addr: &in6_addr) -> (v: Vec<u16>) {
        let mut v: Vec<u16> = Vec::new();
        let mut i: usize = 0;
        while i < 8
            invariant
                addr.wf(),
                i <= 8,
                v@ == Self::spec_elems(addr).take(i as int),
            decreases 8 - i,
        {
            let b0 = addr.octets[2 * i];
            let b1 = addr.octets[2 * i + 1];
            v.push((b0 as u16) * 256 + (b1 as u16));
            proof {
                assert(v@ =~= Self::spec_elems(addr).take(i as int + 1));
            }
            i = i + 1;
        }
        proof {
            assert(v@ =~= Self::spec_elems(addr));
        }
        v
    }

    fn write_slice(addr: &mut in6_addr, v: &Vec<u16>) {
        let mut i: usize = 0;
        while i < 8
            invariant
                addr.octets@.len() == 16,
                v@.len() == 8,
                i <= 8,
                addr.octets@ == Seq::new(
                    16,
                    |k: int|
                        if k < 2 * i {
                            Self::spec_bytes(v@)[k]
                        } else {
                            old(addr).octets@[k]
                        },
                ),
            decreases 8 - i,
        {
            let x = v[i];
            addr.octets[2 * i] = (x / 256) as u8;
            addr.octets[2 * i + 1] = (x % 256) as u8;
            proof {
                assert(addr.octets@ =~= Seq::new(
                    16,
                    |k: int|
                        if k < 2 * (i + 1) {
                            Self::spec_bytes(v@)[k]
                        } else {
                            old(addr).octets@[k]
                        },
                ));
            }
            i = i + 1;
        }
        proof {
            assert(addr.octets@ =~= Self::spec_bytes(v@));
        }
    }
}

impl Element for __be32 {
    open spec fn spec_count() -> nat {
        4
    }

    open spec fn spec_elems(addr: &in6_addr) -> Seq<u32> {
        Seq::new(
            4,
            |i: int|
                (addr.octets@[4 * i] * 0x1000000 + addr.octets@[4 * i + 1] * 0x10000
                    + addr.octets@[4 * i + 2] * 0x100 + addr.octets@[4 * i + 3]) as u32,
        )
    }

    open spec fn spec_bytes(v: Seq<u32>) -> Seq<u8> {
        Seq::new(
            16,
            |k: int|
                if k % 4 == 0 {
                    (v[k / 4] / 0x1000000 % 0x100) as u8
                } else if k % 4 == 1 {
                    (v[k / 4] / 0x10000 % 0x100) as u8
                } else if k % 4 == 2 {
                    (v[k / 4] / 0x100 % 0x100) as u8
                } else {
                    (v[k / 4] % 0x100) as u8
                },
        )
    }

    fn as_slice(addr: &in6_addr) -> (v: Vec<u32>) {
        let mut v: Vec<u32> = Vec::new();
        let mut i: usize = 0;
        while i < 4
            invariant
                addr.wf(),
                i <= 4,
                v@ == Self::spec_elems(addr).take(i as int),
            decreases 4 - i,
        {
            let b0 = addr.octets[4 * i];
            let b1 = addr.octets[4 * i + 1];
            let b2 = addr.octets[4 * i + 2];
            let b3 = addr.octets[4 * i + 3];
            v.push(
                (b0 as u32) * 0x1000000 + (b1 as u32) * 0x10000 + (b2 as u32) * 0x100 + (
                b3 as u32),
            );
            proof {
                assert(v@ =~= Self::spec_elems(addr).take(i as int + 1));
            }
            i = i + 1;
        }
        proof {
            assert(v@ =~= Self::spec_elems(addr));
        }
        v
    }

    fn write_slice(addr: &mut in6_addr, v: &Vec<u32>) {
        let mut i: usize = 0;
        while i < 4
            invariant
                addr.octets@.len() == 16,
                v@.len() == 4,
                i <= 4,
                addr.octets@ == Seq::new(
                    16,
                    |k: int|
                        if k < 4 * i {
                            Self::spec_bytes(v@)[k]
                        } else {
                            old(addr).octets@[k]
                        },
                ),
            decreases 4 - i,
        {
            let x = v[i];
            addr.octets[4 * i] = (x / 0x1000000 % 0x100) as u8;
            addr.octets[4 * i + 1] = (x / 0x10000 % 0x100) as u8;
            addr.octets[4 * i + 2] = (x / 0x100 % 0x100) as u8;
            addr.octets[4 * i + 3] = (x % 0x100) as u8;
            proof {
                assert(addr.octets@ =~= Seq::new(
                    16,
                    |k: int|
                        if k < 4 * (i + 1) {
                            Self::spec_bytes(v@)[k]
                        } else {
                            old(addr).octets@[k]
                        },
                ));
            }
            i = i + 1;
        }
        proof {
            assert(addr.octets@ =~= Self::spec_bytes(v@));
        }
    }
}

/// Ethernet header view.
pub type Ethernet = Layer<ethhdr>;

/// IPv4 header view.
pub type IPv4 = Layer<iphdr>;

/// IPv6 header view.
pub type IPv6 = Layer<ipv6hdr>;

/// ICMP header view.
pub type Icmp = Layer<icmphdr>;

/// ICMPv6 header view.
pub type Icmp6 = Layer<icmp6hdr>;

/// TCP header view.
pub type Tcp = Layer<tcphdr>;

/// UDP header view.
pub type Udp = Layer<udphdr>;

impl Ethernet {
    /// The 16-bit big-endian protocol type field, decoded to its value
    /// (compare against `ETH_P_IP`, `ETH_P_IPV6`).
    pub fn proto(&self, ctx: &Context) -> (r: u16)
        requires
            ctx.inv(),
            self.valid(ctx),
        ensures
            r == ctx.be16_at(self.addr() + ETH_PROTO_OFF),
    {
        ctx.load_be16(self.as_ptr() + ETH_PROTO_OFF)
    }

    /// Exchanges the source and destination hardware addresses in place,
    /// byte for byte; no other byte of the buffer changes.
    pub fn swap_addr(&self, ctx: &mut Context)
        requires
            old(ctx).inv(),
            self.valid(old(ctx)),
        ensures
            final(ctx).base == old(ctx).base,
            final(ctx).data@ == swapped(
                old(ctx).data@,
                self.addr() + ETH_DEST_OFF - old(ctx).start(),
                self.addr() + ETH_SOURCE_OFF - old(ctx).start(),
                ETH_ALEN as int,
            ),
    {
        ctx.swap_ranges(self.as_ptr() + ETH_DEST_OFF, self.as_ptr() + ETH_SOURCE_OFF, ETH_ALEN)
    }
}

impl IPv4 {
    /// Whether any fragmentation bits besides "don't fragment"/reserved are
    /// set: the mask `0x3FFF` (more-fragments flag plus fragment offset)
    /// applied to the big-endian fragment word.
    pub fn fragmented(&self, ctx: &Context) -> (r: bool)
        requires
            ctx.inv(),
            self.valid(ctx),
        ensures
            r == ((ctx.be16_at(self.addr() + IP_FRAG_OFF) & 0x3FFF) != 0),
    {
        (ctx.load_be16(self.as_ptr() + IP_FRAG_OFF) & 0x3FFF) != 0
    }

    /// Exchanges the source and destination addresses in place, byte for
    /// byte; no other byte of the buffer changes.
    pub fn swap_addr(&self, ctx: &mut Context)
        requires
            old(ctx).inv(),
            self.valid(old(ctx)),
        ensures
            final(ctx).base == old(ctx).base,
            final(ctx).data@ == swapped(
                old(ctx).data@,
                self.addr() + IP_SADDR_OFF - old(ctx).start(),
                self.addr() + IP_DADDR_OFF - old(ctx).start(),
                IP_ALEN as int,
            ),
    {
        ctx.swap_ranges(self.as_ptr() + IP_SADDR_OFF, self.as_ptr() + IP_DADDR_OFF, IP_ALEN)
    }
}

impl IPv6 {
    /// Reconstructs the 8-bit traffic class: the high four bits come from
    /// the version/priority byte's low nibble, the low four bits from the
    /// first flow-label byte's high nibble.
    pub fn traffic_class(&self, ctx: &Context) -> (r: u8)
        requires
            ctx.inv(),
            self.valid(ctx),
        ensures
            r == (((ctx.byte_at(self.addr()) & 0x0F) << 4) | (ctx.byte_at(self.addr() + 1)
                >> 4)),
    {
        let b0 = ctx.load(self.as_ptr());
        let b1 = ctx.load(self.as_ptr() + 1);
        ((b0 & 0x0F) << 4) | (b1 >> 4)
    }

    /// Exchanges the source and destination addresses in place, byte for
    /// byte; no other byte of the buffer changes.
    pub fn swap_addr(&self, ctx: &mut Context)
        requires
            old(ctx).inv(),
            self.valid(old(ctx)),
        ensures
            final(ctx).base == old(ctx).base,
            final(ctx).data@ == swapped(
                old(ctx).data@,
                self.addr() + IPV6_SADDR_OFF - old(ctx).start(),
                self.addr() + IPV6_DADDR_OFF - old(ctx).start(),
                IPV6_ALEN as int,
            ),
    {
        ctx.swap_ranges(
            self.as_ptr() + IPV6_SADDR_OFF,
            self.as_ptr() + IPV6_DADDR_OFF,
            IPV6_ALEN,
        )
    }
}

} // verus!
