//! The protocol-layer overlay: bounds-checked views, chaining, payloads,
//! and the per-protocol field accessors and address swaps.

use xdp_overlay::bindings::{ethhdr, in6_addr, iphdr, ipv6hdr, udphdr, ETH_P_IP};
use xdp_overlay::buf::Buffer;
use xdp_overlay::net::{Element, Error, Layer};
use xdp_overlay::xdp::Context;

fn ctx_with(base: usize, data: Vec<u8>) -> Context {
    Context::new(base, data)
}

#[test]
fn layer_at_in_bounds_succeeds() {
    let ctx = ctx_with(100, vec![0u8; 64]);
    let l = ctx.layer_at::<ethhdr>(100).unwrap();
    assert_eq!(l.as_ptr(), 100);
    let m = ctx.layer_at::<ethhdr>(120).unwrap();
    assert_eq!(m.as_ptr(), 120);
}

#[test]
fn layer_at_exact_edge_succeeds() {
    // 100 + 64 = 164 is data_end; a 14-byte record at 150 ends exactly there.
    let ctx = ctx_with(100, vec![0u8; 64]);
    let l = ctx.layer_at::<ethhdr>(150).unwrap();
    assert_eq!(l.as_ptr(), 150);
}

#[test]
fn layer_at_one_past_edge_fails() {
    let ctx = ctx_with(100, vec![0u8; 64]);
    assert!(matches!(ctx.layer_at::<ethhdr>(151), Err(Error::OutOfBounds)));
}

#[test]
fn layer_at_before_start_fails() {
    let ctx = ctx_with(100, vec![0u8; 64]);
    assert!(matches!(ctx.layer_at::<ethhdr>(99), Err(Error::OutOfBounds)));
}

#[test]
fn layer_at_at_data_end_fails() {
    let ctx = ctx_with(100, vec![0u8; 64]);
    assert!(matches!(ctx.layer_at::<ethhdr>(164), Err(Error::OutOfBounds)));
}

#[test]
fn check_bounds_edges() {
    let ctx = ctx_with(100, vec![0u8; 64]);
    assert!(ctx.check_bounds(100, 164).is_ok());
    assert!(ctx.check_bounds(164, 164).is_ok());
    assert!(ctx.check_bounds(100, 165).is_err());
    assert!(ctx.check_bounds(99, 120).is_err());
    assert!(ctx.check_bounds(120, 110).is_err());
}

#[test]
fn ethernet_sits_at_data_start() {
    let ctx = ctx_with(100, vec![0u8; 64]);
    let eth = ctx.ethernet().unwrap();
    assert_eq!(eth.as_ptr(), 100);
}

#[test]
fn ethernet_needs_fourteen_bytes() {
    let ctx = ctx_with(100, vec![0u8; 13]);
    assert!(matches!(ctx.ethernet(), Err(Error::OutOfBounds)));
    let ctx14 = ctx_with(100, vec![0u8; 14]);
    assert!(ctx14.ethernet().is_ok());
}

#[test]
fn chaining_lands_immediately_after() {
    // 14 (eth) + 20 (ip) + 8 (udp) = 42 bytes: a minimal chain.
    let ctx = ctx_with(1000, vec![0u8; 42]);
    let eth = ctx.ethernet().unwrap();
    let ip: Layer<iphdr> = eth.next(&ctx).unwrap();
    assert_eq!(ip.as_ptr(), 1014);
    let udp: Layer<udphdr> = ip.next(&ctx).unwrap();
    assert_eq!(udp.as_ptr(), 1034);
}

#[test]
fn chaining_fails_exactly_when_next_record_does_not_fit() {
    // 14 + 19 bytes: the Ethernet record fits, the IPv4 record lacks a byte.
    let ctx = ctx_with(1000, vec![0u8; 33]);
    let eth = ctx.ethernet().unwrap();
    let r: Result<Layer<iphdr>, Error> = eth.next(&ctx);
    assert!(matches!(r, Err(Error::OutOfBounds)));
    // With exactly 34 bytes the same chain succeeds at the same address.
    let ctx2 = ctx_with(1000, vec![0u8; 34]);
    let eth2 = ctx2.ethernet().unwrap();
    let ip2: Layer<iphdr> = eth2.next(&ctx2).unwrap();
    assert_eq!(ip2.as_ptr(), 1014);
}

#[test]
fn layer_after_equals_layer_at_following_address() {
    let ctx = ctx_with(1000, vec![0u8; 42]);
    let eth = ctx.ethernet().unwrap();
    let via_chain: Layer<iphdr> = ctx.layer_after(&eth).unwrap();
    let via_at: Layer<iphdr> = ctx.layer_at(1014).unwrap();
    assert_eq!(via_chain.as_ptr(), via_at.as_ptr());
}

#[test]
fn payload_runs_to_data_end() {
    let mut data = vec![0u8; 42];
    data[41] = 0xEE;
    let ctx = ctx_with(0, data);
    let eth = ctx.ethernet().unwrap();
    let ip: Layer<iphdr> = eth.next(&ctx).unwrap();
    let udp: Layer<udphdr> = ip.next(&ctx).unwrap();
    let p = udp.payload(&ctx).unwrap();
    assert_eq!(p.len(), 0);
    let p_ip = ip.payload(&ctx).unwrap();
    assert_eq!(p_ip.len(), 8);
    let p_eth = eth.payload(&ctx).unwrap();
    assert_eq!(p_eth.len(), 28);
    assert_eq!(p_eth[27], 0xEE);
}

#[test]
fn payload_of_truncated_record_is_none() {
    // The Ethernet record fits only partially past this view's end.
    let ctx = ctx_with(0, vec![0u8; 10]);
    let l = Layer::<ethhdr>::new(4).unwrap();
    assert!(l.payload(&ctx).is_none());
}

#[test]
fn layer_new_refuses_null() {
    assert!(Layer::<ethhdr>::new(0).is_none());
    let l = Layer::<ethhdr>::new(5).unwrap();
    assert_eq!(l.as_ptr(), 5);
}

#[test]
fn proto_reads_big_endian_type_field() {
    let mut data = vec![0u8; 14];
    data[12] = 0x08;
    data[13] = 0x00;
    let ctx = ctx_with(0, data);
    let eth = ctx.ethernet().unwrap();
    assert_eq!(eth.proto(&ctx), 0x0800);
    assert_eq!(eth.proto(&ctx), ETH_P_IP);
}

#[test]
fn fragmented_masks_out_df_and_reserved() {
    let mk = |hi: u8, lo: u8| {
        let mut data = vec![0u8; 20];
        data[6] = hi;
        data[7] = lo;
        ctx_with(0, data)
    };
    let l = |ctx: &Context| -> Layer<iphdr> { ctx.layer_at(0).unwrap() };
    let c = mk(0x40, 0x00); // don't-fragment only
    assert!(!l(&c).fragmented(&c));
    let c = mk(0x80, 0x00); // reserved bit only
    assert!(!l(&c).fragmented(&c));
    let c = mk(0x20, 0x00); // more-fragments
    assert!(l(&c).fragmented(&c));
    let c = mk(0x00, 0x01); // nonzero fragment offset
    assert!(l(&c).fragmented(&c));
    let c = mk(0x00, 0x00);
    assert!(!l(&c).fragmented(&c));
}

#[test]
fn traffic_class_recombines_nibbles() {
    // Version nibble 0x6, priority nibble 0xA; first flow-label byte 0x5C.
    let mut data = vec![0u8; 40];
    data[0] = 0x6A;
    data[1] = 0x5C;
    let ctx = ctx_with(0, data);
    let ip6: Layer<ipv6hdr> = ctx.layer_at(0).unwrap();
    assert_eq!(ip6.traffic_class(&ctx), 0xA5);
}

#[test]
fn ethernet_swap_addr_exchanges_and_restores() {
    let mut data = vec![0u8; 14];
    for i in 0..6 {
        data[i] = 0x10 + i as u8; // destination
        data[6 + i] = 0x20 + i as u8; // source
    }
    data[12] = 0x86;
    data[13] = 0xDD;
    let orig = data.clone();
    let mut ctx = ctx_with(0, data);
    let eth = ctx.ethernet().unwrap();
    eth.swap_addr(&mut ctx);
    for i in 0..6 {
        assert_eq!(ctx.data[i], 0x20 + i as u8);
        assert_eq!(ctx.data[6 + i], 0x10 + i as u8);
    }
    assert_eq!(ctx.data[12], 0x86);
    assert_eq!(ctx.data[13], 0xDD);
    eth.swap_addr(&mut ctx);
    assert_eq!(ctx.data, orig);
}

#[test]
fn ipv4_swap_addr_exchanges_and_restores() {
    let mut data = vec![0u8; 20];
    data[12..16].copy_from_slice(&[192, 168, 0, 1]);
    data[16..20].copy_from_slice(&[10, 0, 0, 7]);
    let orig = data.clone();
    let mut ctx = ctx_with(0, data);
    let ip: Layer<iphdr> = ctx.layer_at(0).unwrap();
    ip.swap_addr(&mut ctx);
    assert_eq!(&ctx.data[12..16], &[10, 0, 0, 7]);
    assert_eq!(&ctx.data[16..20], &[192, 168, 0, 1]);
    ip.swap_addr(&mut ctx);
    assert_eq!(ctx.data, orig);
}

#[test]
fn ipv6_swap_addr_exchanges_and_restores() {
    let mut data = vec![0u8; 40];
    for i in 0..16 {
        data[8 + i] = i as u8; // source
        data[24 + i] = 0x80 + i as u8; // destination
    }
    let orig = data.clone();
    let mut ctx = ctx_with(0, data);
    let ip6: Layer<ipv6hdr> = ctx.layer_at(0).unwrap();
    ip6.swap_addr(&mut ctx);
    for i in 0..16 {
        assert_eq!(ctx.data[8 + i], 0x80 + i as u8);
        assert_eq!(ctx.data[24 + i], i as u8);
    }
    ip6.swap_addr(&mut ctx);
    assert_eq!(ctx.data, orig);
}

#[test]
fn swap_addr_touches_nothing_else() {
    let mut data = vec![0u8; 42];
    for (i, b) in data.iter_mut().enumerate() {
        *b = i as u8;
    }
    let orig = data.clone();
    let mut ctx = ctx_with(0, data);
    let eth = ctx.ethernet().unwrap();
    eth.swap_addr(&mut ctx);
    for i in 12..42 {
        assert_eq!(ctx.data[i], orig[i]);
    }
}

#[test]
fn element_views_group_big_endian() {
    let bytes: Vec<u8> = (0u8..16).map(|i| 0x10 * (i % 3) + i).collect();
    let addr = in6_addr::new(bytes.clone());
    let v8 = <u8 as Element>::as_slice(&addr);
    assert_eq!(v8, bytes);
    let v16 = <u16 as Element>::as_slice(&addr);
    assert_eq!(v16.len(), 8);
    assert_eq!(v16[0], ((bytes[0] as u16) << 8) | bytes[1] as u16);
    let v32 = <u32 as Element>::as_slice(&addr);
    assert_eq!(v32.len(), 4);
    assert_eq!(
        v32[3],
        u32::from_be_bytes([bytes[12], bytes[13], bytes[14], bytes[15]])
    );
}

#[test]
fn element_write_slice_round_trips() {
    let mut addr = in6_addr::new(vec![0u8; 16]);
    let words: Vec<u16> = vec![0x2001, 0x0db8, 0, 0, 0, 0, 0, 0x0001];
    <u16 as Element>::write_slice(&mut addr, &words);
    assert_eq!(addr.octets[0], 0x20);
    assert_eq!(addr.octets[1], 0x01);
    assert_eq!(addr.octets[2], 0x0d);
    assert_eq!(addr.octets[3], 0xb8);
    assert_eq!(<u16 as Element>::as_slice(&addr), words);
    let quads: Vec<u32> = vec![0xfe800000, 0, 0x01020304, 0xa0b0c0d0];
    <u32 as Element>::write_slice(&mut addr, &quads);
    assert_eq!(<u32 as Element>::as_slice(&addr), quads);
    assert_eq!(addr.octets[0], 0xfe);
    assert_eq!(addr.octets[11], 0x04);
}
