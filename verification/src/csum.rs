//! The checksum engine: a ones'-complement fold over 16-bit words, the
//! diff-style summation primitive, and the IPv4 header checksum built from
//! them.
//!
//! All arithmetic is unsigned and wraparound-free thanks to the explicit
//! fold step; the big-endian (network) byte order of the words is kept
//! throughout, and the finished checksum is written back big-endian.

use vstd::prelude::*;

use crate::bindings::{__sum16, iphdr, Header, IP_CHECK_OFF};
use crate::buf::Buffer;
use crate::net::IPv4;
use crate::xdp::Context;

verus! {

/// One fold step: the high bits above 16 added back into the low 16 bits,
/// if any are set.
pub open spec fn fold_step(c: int) -> int {
    if c / 0x10000 != 0 {
        c % 0x10000 + c / 0x10000
    } else {
        c
    }
}

/// `n` fold steps applied to the accumulator `c`.
pub open spec fn fold_n(c: int, n: nat) -> int
    decreases n,
{
    if n == 0 {
        c
    } else {
        fold_step(fold_n(c, (n - 1) as nat))
    }
}

/// The finished checksum of a 64-bit accumulator: four fold steps —
/// enough for the longest carry chain a sum of 16-bit words can build —
/// followed by the one's complement of the low 16 bits.
pub open spec fn spec_csum_fold(c: int) -> int {
    0xffff - (fold_n(c, 4) % 0x10000)
}

/// The sum of the first `n` big-endian 16-bit words of `s`.
pub open spec fn words_sum(s: Seq<u8>, n: int) -> int
    decreases n,
{
    if n <= 0 {
        0
    } else {
        words_sum(s, n - 1) + 256 * s[2 * (n - 1)] + s[2 * (n - 1) + 1]
    }
}

/// The sum of big-endian words is bounded by `0xffff` per word.
pub proof fn lemma_words_sum_bounds(s: Seq<u8>, n: int)
    requires
        0 <= n,
    ensures
        0 <= words_sum(s, n) <= n * 0xffff,
    decreases n,
{
    if n > 0 {
        lemma_words_sum_bounds(s, n - 1);
        assert(256 * s[2 * (n - 1)] + s[2 * (n - 1) + 1] <= 0xffff);
    }
}

/// The standard IPv4 header checksum of the 20 header bytes `h` (with the
/// checksum field already zeroed): the ones'-complement fold of the sum of
/// its ten big-endian words.
pub open spec fn ipv4_checksum(h: Seq<u8>) -> int {
    spec_csum_fold(words_sum(h, 10))
}

/// The buffer `data` after the checksum field of the IPv4 header at byte
/// offset `off` has been recomputed: the field is zeroed, the checksum of
/// the resulting header bytes is taken, and its big-endian bytes are
/// written back. No byte outside the two checksum bytes changes.
pub open spec fn with_checksum(data: Seq<u8>, off: int) -> Seq<u8> {
    let z = data.update(off + IP_CHECK_OFF, 0u8).update(off + IP_CHECK_OFF + 1, 0u8);
    let v = ipv4_checksum(z.subrange(off, off + iphdr::spec_size()));
    z.update(off + IP_CHECK_OFF, (v / 256) as u8).update(off + IP_CHECK_OFF + 1, (v % 256) as u8)
}

/// Folds the 64-bit accumulator into a 16-bit ones'-complement checksum:
/// four times the high bits are added back into the low 16, then the low
/// 16 bits are complemented.
pub fn csum_fold_helper(csum: u64) -> (r: u16)
    ensures
        r as int == spec_csum_fold(csum as int),
{
    let mut c = csum;
    let mut i: usize = 0;
    while i < 4
        invariant
            i <= 4,
            c as int == fold_n(csum as int, i as nat),
        decreases 4 - i,
    {
        let n = c / 0x10000;
        if n != 0 {
            assert(c / 0x10000 <= 0xffff_ffff_ffff) by (nonlinear_arith)
                requires
                    c <= 0xffff_ffff_ffff_ffff,
            ;
            c = (c % 0x10000) + n;
        }
        i = i + 1;
    }
    let low: u16 = (c % 0x10000) as u16;
    assert(!low == (0xffffu16 - low)) by (bit_vector)
        requires
            low <= 0xffff,
    ;
    !low
}

/// Sums the `len / 2` big-endian words of the byte range `[addr,
/// addr + len)` into the running seed — the diff-style summation path,
/// with nothing to subtract. The caller folds the result.
pub fn csum_diff(ctx: &Context, addr: usize, len: usize, seed: u64) -> (r: u64)
    requires
        ctx.inv(),
        ctx.start() <= addr,
        addr + len <= ctx.end(),
        len % 2 == 0,
        seed + (len / 2) * 0xffff <= u64::MAX,
    ensures
        r as int == seed + words_sum(
            ctx.bytes().subrange(addr - ctx.start(), addr + len - ctx.start()),
            len as int / 2,
        ),
{
    let ghost h = ctx.bytes().subrange(addr - ctx.start(), addr + len - ctx.start());
    let words = len / 2;
    let mut sum = seed;
    let mut i: usize = 0;
    while i < words
        invariant
            ctx.inv(),
            ctx.start() <= addr,
            addr + len <= ctx.end(),
            words == len / 2,
            len % 2 == 0,
            seed + words * 0xffff <= u64::MAX,
            i <= words,
            h == ctx.bytes().subrange(addr - ctx.start(), addr + len - ctx.start()),
            sum as int == seed + words_sum(h, i as int),
            sum <= seed + i * 0xffff,
        decreases words - i,
    {
        let w = ctx.load_be16(addr + 2 * i);
        proof {
            assert(h[2 * (i as int)] == ctx.byte_at(addr + 2 * i));
            assert(h[2 * (i as int) + 1] == ctx.byte_at(addr + 2 * i + 1));
            assert((i + 1) * 0xffff == i * 0xffff + 0xffff) by (nonlinear_arith);
            assert(i + 1 <= words ==> (i + 1) * 0xffff <= words * 0xffff) by (nonlinear_arith);
        }
        sum = sum + w as u64;
        i = i + 1;
    }
    sum
}

/// The diff-based checksum path: sums the `T`-sized record at `addr` into
/// the running accumulator with `csum_diff` and leaves the folded 16-bit
/// checksum in the accumulator, exactly as the full-scan path would.
pub fn ipv4_csum(ctx: &Context, addr: usize, csum: &mut u64)
    requires
        ctx.inv(),
        ctx.start() <= addr,
        addr + iphdr::spec_size() <= ctx.end(),
        *old(csum) + 10 * 0xffff <= u64::MAX,
    ensures
        *final(csum) as int == spec_csum_fold(
            *old(csum) + words_sum(
                ctx.bytes().subrange(
                    addr - ctx.start(),
                    addr + iphdr::spec_size() - ctx.start(),
                ),
                10,
            ),
        ),
{
    let size = iphdr::size();
    let s = csum_diff(ctx, addr, size, *csum);
    *csum = csum_fold_helper(s) as u64;
}

/// The full-scan checksum path: sums the ten big-endian words of the IPv4
/// header at `addr` onto the seed and folds. Converges on the same
/// `spec_csum_fold` value as the diff-based path.
pub fn ipv4_csum_inline(ctx: &Context, addr: usize, csum: u64) -> (r: __sum16)
    requires
        ctx.inv(),
        ctx.start() <= addr,
        addr + iphdr::spec_size() <= ctx.end(),
        csum + 10 * 0xffff <= u64::MAX,
    ensures
        r as int == spec_csum_fold(
            csum + words_sum(
                ctx.bytes().subrange(
                    addr - ctx.start(),
                    addr + iphdr::spec_size() - ctx.start(),
                ),
                10,
            ),
        ),
{
    let size = iphdr::size();
    let s = csum_diff(ctx, addr, size, csum);
    csum_fold_helper(s)
}

impl IPv4 {
    /// Recomputes the header checksum in place: zeroes the checksum field,
    /// folds the sum of the header's words via the diff-based path, and
    /// writes the result back big-endian. Only the two checksum bytes
    /// change.
    pub fn compute_checksum(&self, ctx: &mut Context)
        requires
            old(ctx).inv(),
            self.valid(old(ctx)),
        ensures
            final(ctx).base == old(ctx).base,
            final(ctx).data@ == with_checksum(old(ctx).data@, self.addr() - old(ctx).start()),
    {
        let a = self.as_ptr();
        ctx.store_be16(a + IP_CHECK_OFF, 0);
        let ghost off = self.addr() - old(ctx).start();
        let ghost z = old(ctx).data@.update(off + IP_CHECK_OFF, 0u8).update(
            off + IP_CHECK_OFF + 1,
            0u8,
        );
        proof {
            assert(ctx.data@ =~= z);
        }
        let mut sum: u64 = 0;
        ipv4_csum(ctx, a, &mut sum);
        proof {
            assert(ctx.bytes().subrange(off, off + iphdr::spec_size()) =~= z.subrange(
                off,
                off + iphdr::spec_size(),
            ));
            lemma_words_sum_bounds(z.subrange(off, off + iphdr::spec_size()), 10);
            assert(0 <= spec_csum_fold(words_sum(z.subrange(off, off + iphdr::spec_size()), 10))
                <= 0xffff);
        }
        ctx.store_be16(a + IP_CHECK_OFF, sum as u16);
        proof {
            assert(ctx.data@ =~= with_checksum(old(ctx).data@, off));
        }
    }
}

} // verus!
