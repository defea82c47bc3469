//! The checksum engine: fold vectors, the two summation paths, and the
//! in-place IPv4 header checksum recomputation.

use xdp_overlay::buf::Buffer;
use xdp_overlay::csum::{csum_diff, csum_fold_helper, ipv4_csum, ipv4_csum_inline};
use xdp_overlay::net::Layer;
use xdp_overlay::xdp::Context;

#[test]
fn fold_of_zero_is_all_ones() {
    assert_eq!(csum_fold_helper(0), 0xFFFF);
}

#[test]
fn fold_below_sixteen_bits_is_plain_complement() {
    assert_eq!(csum_fold_helper(0x4500), !0x4500u16);
    assert_eq!(csum_fold_helper(0x4500), 0xBAFF);
    assert_eq!(csum_fold_helper(0xFFFF), 0x0000);
}

#[test]
fn fold_carries_high_bits_around() {
    // 0x1FFFF -> 0xFFFF + 1 = 0x10000 -> 0 + 1 = 1 -> !1.
    assert_eq!(csum_fold_helper(0x1FFFF), 0xFFFE);
    // 0x12345 -> 0x2345 + 1 = 0x2346 -> !0x2346.
    assert_eq!(csum_fold_helper(0x12345), !0x2346u16);
}

#[test]
fn minimal_header_vector() {
    // An all-zero 20-byte header except version/IHL = 0x45 sums to 0x4500
    // and folds to 0xBAFF.
    let mut data = vec![0u8; 20];
    data[0] = 0x45;
    let ctx = Context::new(0, data);
    assert_eq!(ipv4_csum_inline(&ctx, 0, 0), 0xBAFF);
}

#[test]
fn known_header_vector() {
    // A textbook IPv4 header whose checksum field (zeroed here) folds to
    // 0xB861.
    let data = vec![
        0x45, 0x00, 0x00, 0x73, 0x00, 0x00, 0x40, 0x00, 0x40, 0x11, 0x00, 0x00, 0xc0, 0xa8,
        0x00, 0x01, 0xc0, 0xa8, 0x00, 0xc7,
    ];
    let ctx = Context::new(0, data);
    assert_eq!(ipv4_csum_inline(&ctx, 0, 0), 0xB861);
}

#[test]
fn diff_path_converges_with_inline_path() {
    let data = vec![
        0x45, 0x00, 0x00, 0x73, 0x00, 0x00, 0x40, 0x00, 0x40, 0x11, 0x00, 0x00, 0xc0, 0xa8,
        0x00, 0x01, 0xc0, 0xa8, 0x00, 0xc7,
    ];
    let ctx = Context::new(0, data);
    let mut acc: u64 = 0;
    ipv4_csum(&ctx, 0, &mut acc);
    assert_eq!(acc, ipv4_csum_inline(&ctx, 0, 0) as u64);
}

#[test]
fn csum_diff_adds_words_onto_seed() {
    let data = vec![0x01, 0x02, 0x03, 0x04];
    let ctx = Context::new(0, data);
    assert_eq!(csum_diff(&ctx, 0, 4, 0), 0x0102 + 0x0304);
    assert_eq!(csum_diff(&ctx, 0, 4, 1000), 1000 + 0x0102 + 0x0304);
    assert_eq!(csum_diff(&ctx, 2, 2, 0), 0x0304);
    assert_eq!(csum_diff(&ctx, 0, 0, 7), 7);
}

#[test]
fn compute_checksum_writes_known_vector_back() {
    // Same textbook header, with a stale checksum in place: recomputation
    // zeroes the field first and must write back 0xB8, 0x61.
    let data = vec![
        0x45, 0x00, 0x00, 0x73, 0x00, 0x00, 0x40, 0x00, 0x40, 0x11, 0xde, 0xad, 0xc0, 0xa8,
        0x00, 0x01, 0xc0, 0xa8, 0x00, 0xc7,
    ];
    let orig = data.clone();
    let mut ctx = Context::new(0, data);
    let ip: Layer<xdp_overlay::bindings::iphdr> = ctx.layer_at(0).unwrap();
    ip.compute_checksum(&mut ctx);
    assert_eq!(ctx.data[10], 0xB8);
    assert_eq!(ctx.data[11], 0x61);
    for i in 0..20 {
        if i != 10 && i != 11 {
            assert_eq!(ctx.data[i], orig[i]);
        }
    }
}

#[test]
fn compute_checksum_of_minimal_header() {
    let mut data = vec![0u8; 20];
    data[0] = 0x45;
    let mut ctx = Context::new(100, data);
    let ip: Layer<xdp_overlay::bindings::iphdr> = ctx.layer_at(100).unwrap();
    ip.compute_checksum(&mut ctx);
    assert_eq!(ctx.data[10], 0xBA);
    assert_eq!(ctx.data[11], 0xFF);
}
