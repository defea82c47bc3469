//! The header schema: fixed-size, fixed-layout record types for the network
//! headers a packet program overlays onto the raw buffer, together with the
//! byte offsets of the fields the library reads or writes, and the protocol
//! number constants used to branch on discriminant fields.
//!
//! Each header type is a zero-sized tag; a [`crate::net::Layer`] pairs such a
//! tag with an address inside the packet buffer, and all field access goes
//! through the buffer itself. The sizes below are the wire sizes of the
//! fixed portions of the headers, byte for byte.
#![allow(non_camel_case_types)]

use vstd::prelude::*;

verus! {

/// A fixed-size header record: a type-level description of a contiguous
/// byte range of known length inside the packet buffer.
pub trait Header: Sized {
    /// The wire size of the fixed portion of this header, in bytes.
    spec fn spec_size() -> nat;

    /// Executable mirror of [`Header::spec_size`]. Every header occupies at
    /// least one byte and no more than 65536, so offset arithmetic on
    /// addresses stays tractable.
    fn size() -> (n: usize)
        ensures
            n as nat == Self::spec_size(),
            1 <= n <= 65536,
    ;
}

/// Ethernet header: 6-byte destination, 6-byte source, 2-byte big-endian
/// protocol type.
pub struct ethhdr;

/// IPv4 fixed header: 20 bytes, beginning with the version/IHL nibble pair.
pub struct iphdr;

/// IPv6 fixed header: 40 bytes, with version, traffic class and flow label
/// packed into the first four bytes.
pub struct ipv6hdr;

/// ICMP header (8 fixed bytes).
pub struct icmphdr;

/// ICMPv6 header (8 fixed bytes).
pub struct icmp6hdr;

/// TCP fixed header: 20 bytes.
pub struct tcphdr;

/// UDP header: 8 bytes.
pub struct udphdr;

impl Header for ethhdr {
    open spec fn spec_size() -> nat {
        14
    }

    fn size() -> usize {
        14
    }
}

impl Header for iphdr {
    open spec fn spec_size() -> nat {
        20
    }

    fn size() -> usize {
        20
    }
}

impl Header for ipv6hdr {
    open spec fn spec_size() -> nat {
        40
    }

    fn size() -> usize {
        40
    }
}

impl Header for icmphdr {
    open spec fn spec_size() -> nat {
        8
    }

    fn size() -> usize {
        8
    }
}

impl Header for icmp6hdr {
    open spec fn spec_size() -> nat {
        8
    }

    fn size() -> usize {
        8
    }
}

impl Header for tcphdr {
    open spec fn spec_size() -> nat {
        20
    }

    fn size() -> usize {
        20
    }
}

impl Header for udphdr {
    open spec fn spec_size() -> nat {
        8
    }

    fn size() -> usize {
        8
    }
}

/// A big-endian 16-bit wire word.
pub type __be16 = u16;

/// A big-endian 32-bit wire word.
pub type __be32 = u32;

/// A 16-bit ones'-complement checksum as carried on the wire.
pub type __sum16 = u16;

/// An IPv6 address: sixteen bytes in wire order.
pub struct in6_addr {
    pub octets: Vec<u8>,
}

impl in6_addr {
    /// An address record always holds exactly sixteen bytes.
    pub open spec fn wf(&self) -> bool {
        self.octets@.len() == 16
    }

    /// Wraps sixteen wire-order bytes as an address record.
    pub fn new(octets: Vec<u8>) -> (r: Self)
        requires
            octets@.len() == 16,
        ensures
            r.wf(),
            r.octets@ == octets@,
    {
        in6_addr { octets }
    }
}

/// Ethernet protocol number of IPv4, as carried (big-endian) in `h_proto`.
pub const ETH_P_IP: u16 = 0x0800;

/// Ethernet protocol number of IPv6.
pub const ETH_P_IPV6: u16 = 0x86DD;

/// IP protocol numbers, for branching on `iphdr`'s protocol byte or
/// `ipv6hdr`'s next-header byte.
pub const IPPROTO_ICMP: u8 = 1;

pub const IPPROTO_TCP: u8 = 6;

pub const IPPROTO_UDP: u8 = 17;

pub const IPPROTO_ICMPV6: u8 = 58;

/// Address family numbers, for create-time socket/map configuration.
pub const AF_INET: u16 = 2;

pub const AF_INET6: u16 = 10;

/// Byte offset of the destination address inside `ethhdr`.
pub const ETH_DEST_OFF: usize = 0;

/// Byte offset of the source address inside `ethhdr`.
pub const ETH_SOURCE_OFF: usize = 6;

/// Length of an Ethernet hardware address.
pub const ETH_ALEN: usize = 6;

/// Byte offset of the big-endian protocol type inside `ethhdr`.
pub const ETH_PROTO_OFF: usize = 12;

/// Byte offset of the big-endian fragment word inside `iphdr`.
pub const IP_FRAG_OFF: usize = 6;

/// Byte offset of the protocol byte inside `iphdr`.
pub const IP_PROTOCOL_OFF: usize = 9;

/// Byte offset of the big-endian header checksum inside `iphdr`.
pub const IP_CHECK_OFF: usize = 10;

/// Byte offset of the source address inside `iphdr`.
pub const IP_SADDR_OFF: usize = 12;

/// Byte offset of the destination address inside `iphdr`.
pub const IP_DADDR_OFF: usize = 16;

/// Length of an IPv4 address.
pub const IP_ALEN: usize = 4;

/// Byte offset of the source address inside `ipv6hdr`.
pub const IPV6_SADDR_OFF: usize = 8;

/// Byte offset of the destination address inside `ipv6hdr`.
pub const IPV6_DADDR_OFF: usize = 24;

/// Length of an IPv6 address.
pub const IPV6_ALEN: usize = 16;

} // verus!
