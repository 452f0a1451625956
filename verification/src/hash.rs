//! A fingerprint of the content of an image, for approximate comparison.
//!
//! The image is sampled on a grid of eight by eight pixels. Each sample
//! gives one bit of the fingerprint: whether the mean level of its channels
//! is above half of full intensity.

use crate::filter::spec_eval;
use crate::geometry::Point;
use crate::image::{Image, ImageView};
use crate::sample::{lemma_sample_round_trip, LEVEL_MAX};
use crate::tone::Invert;
use vstd::prelude::*;

verus! {

/// A fingerprint of 64 bits.
#[derive(Clone, Copy, Debug, PartialEq, Eq, Structural)]
pub struct Hash(pub u64);

/// Whether bit `k` of `v` is set.
pub open spec fn bit(v: u64, k: u64) -> bool {
    (v >> k) & 1 == 1
}

/// The number of positions below `n` at which `a` and `b` differ.
pub open spec fn differing_bits(a: u64, b: u64, n: nat) -> nat
    decreases n,
{
    if n == 0 {
        0
    } else {
        differing_bits(a, b, (n - 1) as nat) + if bit(a, (n - 1) as u64) != bit(
            b,
            (n - 1) as u64,
        ) {
            1nat
        } else {
            0nat
        }
    }
}

/// The distance of two fingerprints: the number of bits in which they
/// differ.
pub open spec fn distance(a: Hash, b: Hash) -> nat {
    differing_bits(a.0, b.0, 64)
}

/// The sum of the levels of the first `n` channels of the pixel at `pt`.
pub open spec fn pixel_sum(iv: ImageView, pt: Point, n: nat) -> int
    decreases n,
{
    if n == 0 {
        0
    } else {
        pixel_sum(iv, pt, (n - 1) as nat) + iv.level(pt, n - 1)
    }
}

/// The pixel sampled for bit `k`: column `k % 8` and row `k / 8` of the
/// grid.
pub open spec fn grid_point(iv: ImageView, k: int) -> Point {
    Point {
        x: ((k % 8) * iv.meta.size.width / 8) as usize,
        y: ((k / 8) * iv.meta.size.height / 8) as usize,
    }
}

/// Bit `k` of the fingerprint: the mean level of the sampled pixel is above
/// half of full intensity. An image without pixels has no bit set.
pub open spec fn hash_bit(iv: ImageView, k: int) -> bool {
    if iv.meta.size.width == 0 || iv.meta.size.height == 0 {
        false
    } else {
        2 * pixel_sum(iv, grid_point(iv, k), iv.meta.channels()) > LEVEL_MAX * iv.meta.channels()
    }
}

/// The fingerprint with the first `n` bits of the image and no other bit.
pub open spec fn hash_upto(iv: ImageView, n: nat) -> u64
    decreases n,
{
    if n == 0 {
        0
    } else if hash_bit(iv, n - 1) {
        hash_upto(iv, (n - 1) as nat) | (1u64 << ((n - 1) as u64))
    } else {
        hash_upto(iv, (n - 1) as nat)
    }
}

/// The fingerprint of an image.
pub open spec fn spec_hash(iv: ImageView) -> Hash {
    Hash(hash_upto(iv, 64))
}

proof fn lemma_set_bit(v: u64, n: u64, k: u64)
    by (bit_vector)
    requires
        n < 64,
        k < 64,
    ensures
        ((v | (1u64 << n)) >> k) & 1 == 1 <==> ((v >> k) & 1 == 1 || k == n),
{
}

proof fn lemma_zero_bits(k: u64)
    by (bit_vector)
    requires
        k < 64,
    ensures
        (0u64 >> k) & 1 == 0,
{
}

/// Bit `k` of the fingerprint built from the first `n` bits is bit `k` of
/// the image where `k` is below `n`, and is not set otherwise.
pub proof fn lemma_hash_upto(iv: ImageView, n: nat, k: u64)
    requires
        n <= 64,
        k < 64,
    ensures
        bit(hash_upto(iv, n), k) == (k < n && hash_bit(iv, k as int)),
    decreases n,
{
    if n == 0 {
        lemma_zero_bits(k);
    } else {
        lemma_hash_upto(iv, (n - 1) as nat, k);
        if hash_bit(iv, n - 1) {
            lemma_set_bit(hash_upto(iv, (n - 1) as nat), (n - 1) as u64, k);
        }
    }
}

/// Every bit of the fingerprint is the bit of the image.
pub proof fn lemma_hash_bits(iv: ImageView, k: u64)
    requires
        k < 64,
    ensures
        bit(spec_hash(iv).0, k) == hash_bit(iv, k as int),
{
    lemma_hash_upto(iv, 64, k);
}

/// The fingerprint is a function of the content: two images with the same
/// view have the same fingerprint, at distance 0.
pub proof fn lemma_same_content_same_hash(a: Image, b: Image)
    requires
        a@ == b@,
    ensures
        spec_hash(a@) == spec_hash(b@),
        distance(spec_hash(a@), spec_hash(b@)) == 0,
{
    lemma_distance_self(spec_hash(a@));
}

/// A fingerprint has distance 0 to itself.
pub proof fn lemma_distance_self(a: Hash)
    ensures
        distance(a, a) == 0,
{
    lemma_differing_same(a.0, 64);
}

proof fn lemma_differing_same(a: u64, n: nat)
    ensures
        differing_bits(a, a, n) == 0,
    decreases n,
{
    if n > 0 {
        lemma_differing_same(a, (n - 1) as nat);
    }
}

/// The distance is the same in both directions.
pub proof fn lemma_distance_symmetric(a: Hash, b: Hash)
    ensures
        distance(a, b) == distance(b, a),
{
    lemma_differing_symmetric(a.0, b.0, 64);
}

proof fn lemma_differing_symmetric(a: u64, b: u64, n: nat)
    ensures
        differing_bits(a, b, n) == differing_bits(b, a, n),
    decreases n,
{
    if n > 0 {
        lemma_differing_symmetric(a, b, (n - 1) as nat);
    }
}

proof fn lemma_low_bits_step(x: u64, n: u64)
    by (bit_vector)
    requires
        n < 63,
        x & (((1u64 << n) - 1) as u64) == 0,
        (x >> n) & 1 == 0,
    ensures
        x & (((1u64 << ((n + 1) as u64)) - 1) as u64) == 0,
{
}

proof fn lemma_low_bits_last(x: u64)
    by (bit_vector)
    requires
        x & (((1u64 << 63) - 1) as u64) == 0,
        (x >> 63) & 1 == 0,
    ensures
        x == 0,
{
}

proof fn lemma_low_bits_first(x: u64)
    by (bit_vector)
    ensures
        x & (((1u64 << 0) - 1) as u64) == 0,
{
}

proof fn lemma_xor_bit(a: u64, b: u64, k: u64)
    by (bit_vector)
    requires
        k < 64,
    ensures
        (((a ^ b) >> k) & 1 == 0) <==> (((a >> k) & 1 == 1) <==> ((b >> k) & 1 == 1)),
        a ^ b == 0 <==> a == b,
{
}

proof fn lemma_no_difference(a: u64, b: u64, n: nat)
    requires
        n <= 63,
        differing_bits(a, b, n) == 0,
    ensures
        (a ^ b) & (((1u64 << (n as u64)) - 1) as u64) == 0,
    decreases n,
{
    if n == 0 {
        lemma_low_bits_first(a ^ b);
    } else {
        lemma_no_difference(a, b, (n - 1) as nat);
        lemma_xor_bit(a, b, (n - 1) as u64);
        lemma_low_bits_step(a ^ b, (n - 1) as u64);
    }
}

/// Two fingerprints have distance 0 exactly where they are equal.
pub proof fn lemma_distance_zero(a: Hash, b: Hash)
    ensures
        distance(a, b) == 0 <==> a == b,
{
    if a == b {
        lemma_distance_self(a);
    }
    if distance(a, b) == 0 {
        lemma_no_difference(a.0, b.0, 63);
        lemma_xor_bit(a.0, b.0, 63);
        lemma_low_bits_last(a.0 ^ b.0);
    }
}

/// The distance is at most the number of bits of a fingerprint.
pub proof fn lemma_distance_bound(a: Hash, b: Hash)
    ensures
        distance(a, b) <= 64,
{
    lemma_differing_bound(a.0, b.0, 64);
}

proof fn lemma_differing_bound(a: u64, b: u64, n: nat)
    ensures
        differing_bits(a, b, n) <= n,
    decreases n,
{
    if n > 0 {
        lemma_differing_bound(a, b, (n - 1) as nat);
    }
}

impl Hash {
    /// The number of bits in which the two fingerprints differ.
    pub fn diff(&self, other: &Hash) -> (d: u64)
        ensures
            d == distance(*self, *other),
            d <= 64,
    {
        let mut d: u64 = 0;
        let mut k: u64 = 0;
        while k < 64
            invariant
                k <= 64,
                d == differing_bits(self.0, other.0, k as nat),
                d <= k,
            decreases 64 - k,
        {
            if ((self.0 >> k) & 1 == 1) != ((other.0 >> k) & 1 == 1) {
                d += 1;
            }
            k += 1;
        }
        d
    }
}

impl Image {
    /// The fingerprint of the image. It depends on the content of the image
    /// only: images with the same view have the same fingerprint.
    pub fn hash(&self) -> (h: Hash)
        requires
            self.wf(),
        ensures
            h == spec_hash(self@),
    {
        let w = self.meta.size.width;
        let height = self.meta.size.height;
        let ch = self.meta.num_channels();
        let mut hash: u64 = 0;
        let mut k: u64 = 0;
        while k < 64
            invariant
                self.wf(),
                w == self.meta.size.width,
                height == self.meta.size.height,
                ch == self.meta.channels(),
                k <= 64,
                hash == hash_upto(self@, k as nat),
            decreases 64 - k,
        {
            if w > 0 && height > 0 {
                let i = k % 8;
                let j = k / 8;
                assert(0 <= i * w <= 7 * w && 0 <= j * height <= 7 * height) by (nonlinear_arith)
                    requires
                        0 <= i <= 7,
                        0 <= j <= 7,
                        0 <= w,
                        0 <= height,
                ;
                let x = ((i as u128) * (w as u128) / 8) as usize;
                let y = ((j as u128) * (height as u128) / 8) as usize;
                let pt = Point { x, y };
                assert(pt == grid_point(self@, k as int));
                let mut sum: i64 = 0;
                let mut c: usize = 0;
                while c < ch
                    invariant
                        self.wf(),
                        pt.within(self.meta.size),
                        ch == self.meta.channels(),
                        ch <= 4,
                        c <= ch,
                        sum == pixel_sum(self@, pt, c as nat),
                        0 <= sum <= LEVEL_MAX * c,
                    decreases ch - c,
                {
                    sum = sum + self.get_f(pt, c);
                    c += 1;
                }
                if 2 * sum > LEVEL_MAX * (ch as i64) {
                    hash = hash | (1u64 << k);
                }
            }
            k += 1;
        }
        Hash(hash)
    }
}

/// The channel sums of an image and of its inverse add up to full intensity
/// in every channel.
proof fn lemma_inverse_sum(iv: ImageView, pt: Point, n: nat)
    requires
        iv.valid(),
        pt.within(iv.meta.size),
        n <= iv.meta.channels(),
    ensures
        pixel_sum(spec_eval(&Invert, seq![iv], iv.meta), pt, n) == n * LEVEL_MAX - pixel_sum(
            iv,
            pt,
            n,
        ),
    decreases n,
{
    if n > 0 {
        lemma_inverse_sum(iv, pt, (n - 1) as nat);
        let m = iv.meta;
        let c = n - 1;
        m.lemma_join(pt, c);
        let l = iv.levels[m.spec_index(pt) + c];
        lemma_sample_round_trip(m.kind, m.kind.max_sample() - m.kind.sample_of(l));
        lemma_sample_round_trip(m.kind, m.kind.sample_of(l));
        assert(spec_eval(&Invert, seq![iv], m).level(pt, c) == LEVEL_MAX - l);
        assert(n * LEVEL_MAX == (n - 1) * LEVEL_MAX + LEVEL_MAX) by (nonlinear_arith);
    }
}

proof fn lemma_all_differ(a: u64, b: u64, n: nat)
    requires
        n <= 64,
        forall|k: u64| k < n ==> bit(a, k) != bit(b, k),
    ensures
        differing_bits(a, b, n) == n,
    decreases n,
{
    if n > 0 {
        lemma_all_differ(a, b, (n - 1) as nat);
        assert(bit(a, (n - 1) as u64) != bit(b, (n - 1) as u64));
    }
}

/// Inverting changes the fingerprint: for an image with pixels and an odd
/// number of channels, the fingerprint of the inverse differs from that of
/// the image in every bit.
pub proof fn lemma_invert_changes_hash(iv: ImageView)
    requires
        iv.valid(),
        iv.meta.size.width > 0,
        iv.meta.size.height > 0,
        iv.meta.channels() % 2 == 1,
    ensures
        distance(spec_hash(iv), spec_hash(spec_eval(&Invert, seq![iv], iv.meta))) == 64,
{
    let inv = spec_eval(&Invert, seq![iv], iv.meta);
    let a = spec_hash(iv).0;
    let b = spec_hash(inv).0;
    let ch = iv.meta.channels();
    assert forall|k: u64| k < 64 implies bit(a, k) != bit(b, k) by {
        lemma_hash_bits(iv, k);
        lemma_hash_bits(inv, k);
        let pt = grid_point(iv, k as int);
        lemma_grid_point(iv, k as int);
        lemma_inverse_sum(iv, pt, ch);
        assert(grid_point(inv, k as int) == pt);
    }
    lemma_all_differ(a, b, 64);
}

/// The grid samples pixels of the image.
pub proof fn lemma_grid_point(iv: ImageView, k: int)
    requires
        0 <= k < 64,
        iv.meta.size.width > 0,
        iv.meta.size.height > 0,
    ensures
        grid_point(iv, k).within(iv.meta.size),
{
    let w = iv.meta.size.width as int;
    let h = iv.meta.size.height as int;
    assert(0 <= (k % 8) * w <= 7 * w && 0 <= (k / 8) * h <= 7 * h) by (nonlinear_arith)
        requires
            0 <= k % 8 <= 7,
            0 <= k / 8 <= 7,
            0 < w,
            0 < h,
    ;
}

} // verus!
