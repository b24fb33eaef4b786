//! The fingerprint value: a bit count plus a bit sequence, with its distance
//! metrics and the mean-threshold hash constructor.

use vstd::prelude::*;

use crate::bits::hamming;
use crate::bits::lemma_hamming_le_len;
use crate::bits::lemma_hamming_self;
use crate::bits::lemma_hamming_symmetric;
use crate::bits::lemma_hamming_take_step;
use crate::grid::mean_bits;
use crate::grid::mean_hash_bits;

verus! {

#[verifier::external_type_specification]
#[verifier::external_body]
pub struct ExDynamicImage(image::DynamicImage);

/// The `size` x `size` intensity grid of an image: the image resized to that
/// square with the nearest-neighbor filter, then converted to grayscale with
/// the image library's fixed luma weighting. A function of the image's
/// pixels and the size alone, so byte-identical images give the same grid.
pub uninterp spec fn grid_of(img: image::DynamicImage, size: u32) -> Seq<u8>;

/// A perceptual fingerprint: the total bit count and the bit sequence
/// itself, in the row-major order of the grid it was derived from.
#[derive(Debug, Eq, Hash)]
pub struct ImageHash {
    size: u32,
    bits: Vec<bool>,
}

impl Clone for ImageHash {
    /// Duplication preserves the fingerprint's value.
    fn clone(&self) -> (r: Self)
        ensures
            r@ == self@,
    {
        proof {
            use_type_invariant(&*self);
        }
        ImageHash { size: self.size, bits: self.bits.clone() }
    }
}

impl View for ImageHash {
    type V = Seq<bool>;

    closed spec fn view(&self) -> Seq<bool> {
        self.bits@
    }
}

impl PartialEq for ImageHash {
    /// Value equality: the same bit count and the same bits.
    fn eq(&self, other: &Self) -> (r: bool) {
        proof {
            use_type_invariant(&*self);
            use_type_invariant(&*other);
        }
        if self.size != other.size {
            return false;
        }
        let n = self.bits.len();
        let mut i: usize = 0;
        while i < n
            invariant
                n == self.bits@.len(),
                self.bits@.len() == other.bits@.len(),
                i <= n,
                forall|j: int| 0 <= j < i ==> self.bits@[j] == other.bits@[j],
            decreases n - i,
        {
            if self.bits[i] != other.bits[i] {
                return false;
            }
            i = i + 1;
        }
        proof {
            assert(self.bits@ =~= other.bits@);
        }
        true
    }
}

impl vstd::std_specs::cmp::PartialEqSpecImpl for ImageHash {
    open spec fn obeys_eq_spec() -> bool {
        true
    }

    open spec fn eq_spec(&self, other: &ImageHash) -> bool {
        self@ == other@
    }
}

impl ImageHash {
    /// The stored bit count always equals the length of the bit sequence.
    #[verifier::type_invariant]
    spec fn inv(self) -> bool {
        self.size as nat == self.bits@.len()
    }

    /// Total number of bits in the fingerprint.
    pub fn size(&self) -> (s: u32)
        ensures
            s == self@.len(),
    {
        proof {
            use_type_invariant(&*self);
        }
        self.size
    }

    /// Number of bits in the fingerprint, as a length.
    pub fn bit_len(&self) -> (n: usize)
        ensures
            n == self@.len(),
    {
        self.bits.len()
    }

    /// The bit at a position, in row-major order.
    pub fn bit(&self, i: usize) -> (b: bool)
        requires
            i < self@.len(),
        ensures
            b == self@[i as int],
    {
        self.bits[i]
    }

    /// Wrap a bit sequence of exactly `hash_size * hash_size` bits as a
    /// fingerprint.
    pub fn from_bits(hash_size: u32, bits: Vec<bool>) -> (h: ImageHash)
        requires
            1 <= hash_size,
            hash_size <= 0xffff,
            bits@.len() == hash_size * hash_size,
        ensures
            h@ == bits@,
            h@.len() == hash_size * hash_size,
    {
        proof {
            assert(hash_size * hash_size <= 0xffff_ffff) by (nonlinear_arith)
                requires
                    hash_size <= 0xffff,
            ;
        }
        ImageHash { size: hash_size * hash_size, bits }
    }

    /// Hamming distance to another fingerprint of the same bit count: the
    /// number of positions at which the two bit sequences differ.
    pub fn dist(&self, other: &ImageHash) -> (d: usize)
        requires
            self@.len() == other@.len(),
        ensures
            d == hamming(self@, other@),
            d <= self@.len(),
    {
        let n = self.bits.len();
        let mut d: usize = 0;
        let mut i: usize = 0;
        while i < n
            invariant
                n == self.bits@.len(),
                self.bits@.len() == other.bits@.len(),
                i <= n,
                d <= i,
                d == hamming(self.bits@.take(i as int), other.bits@.take(i as int)),
            decreases n - i,
        {
            proof {
                lemma_hamming_take_step(self.bits@, other.bits@, i as int);
            }
            if self.bits[i] != other.bits[i] {
                d = d + 1;
            }
            i = i + 1;
        }
        proof {
            assert(self.bits@.take(n as int) =~= self.bits@);
            assert(other.bits@.take(n as int) =~= other.bits@);
        }
        d
    }

    /// Hamming distance, or `None` when the bit counts differ: fingerprints
    /// of different lengths are never compared bit by bit.
    pub fn try_dist(&self, other: &ImageHash) -> (r: Option<usize>)
        ensures
            (r is Some) <==> self@.len() == other@.len(),
            r matches Some(d) ==> d == hamming(self@, other@),
    {
        if self.bits.len() == other.bits.len() {
            Some(self.dist(other))
        } else {
            None
        }
    }

    /// Relies on image::imageops::resize with the given target dimensions
    /// and the nearest-neighbor filter, which returns a buffer of exactly
    /// those dimensions, on image::imageops::grayscale, which maps it to one
    /// luma sample per pixel, and on ImageBuffer::into_raw, which hands the
    /// samples back row-major, one byte each: the result is the
    /// `size` x `size` intensity grid of the image, `grid_of`, which both
    /// operations compute from the pixels and the dimensions alone.
    #[verifier::external_body]
    fn square_resize_and_gray(img: &image::DynamicImage, size: u32) -> (grid: Vec<u8>)
        requires
            1 <= size,
            size * size <= usize::MAX,
        ensures
            grid@.len() == size * size,
            grid@ == grid_of(*img, size),
    {
        let small = image::imageops::resize(img, size, size, image::imageops::FilterType::Nearest);
        let gray = image::imageops::grayscale(&small);
        gray.into_raw()
    }

    /// The mean-threshold hash of an image: resize it to
    /// `hash_size` x `hash_size`, convert to grayscale, then threshold every
    /// intensity against the mean intensity of the whole grid, in row-major
    /// order. The bit pattern is exactly the mean-threshold pattern of the
    /// image's intensity grid, so equal images at equal sizes hash alike.
    pub fn fast_hash(img: &image::DynamicImage, hash_size: u32) -> (h: ImageHash)
        requires
            1 <= hash_size,
            hash_size <= 0xffff,
        ensures
            h@.len() == hash_size * hash_size,
            h@ == mean_bits(grid_of(*img, hash_size)),
    {
        proof {
            assert(1 <= hash_size * hash_size && hash_size * hash_size <= 0xffff_ffff)
                by (nonlinear_arith)
                requires
                    1 <= hash_size,
                    hash_size <= 0xffff,
            ;
        }
        let grid = ImageHash::square_resize_and_gray(img, hash_size);
        let bits = mean_hash_bits(&grid);
        ImageHash::from_bits(hash_size, bits)
    }
}

/// Determinism and identity: two mean-threshold hashes of the same image at
/// the same size carry the same bits and are at Hamming distance zero.
pub proof fn lemma_hash_deterministic(
    img: image::DynamicImage,
    hash_size: u32,
    a: ImageHash,
    b: ImageHash,
)
    requires
        a@ == mean_bits(grid_of(img, hash_size)),
        b@ == mean_bits(grid_of(img, hash_size)),
    ensures
        a@ == b@,
        hamming(a@, b@) == 0,
{
    lemma_hamming_self(a@);
}

/// Fingerprints of different hash sizes have different bit counts, so the
/// distance precondition excludes them and `try_dist` returns `None`: a
/// shorter hash is never silently compared against a prefix of a longer one.
pub proof fn lemma_mismatched_sizes_never_compare(a: ImageHash, b: ImageHash, m: u32, n: u32)
    requires
        a@.len() == m * m,
        b@.len() == n * n,
        m != n,
    ensures
        a@.len() != b@.len(),
{
    assert((m as int) * (m as int) != (n as int) * (n as int)) by (nonlinear_arith)
        requires
            m != n,
            0 <= m,
            0 <= n,
    ;
}

/// distance(a, a) == 0: a fingerprint is at distance zero from itself.
pub proof fn lemma_dist_self(a: ImageHash)
    ensures
        hamming(a@, a@) == 0,
{
    lemma_hamming_self(a@);
}

/// distance(a, b) == distance(b, a): the distance is symmetric.
pub proof fn lemma_dist_symmetric(a: ImageHash, b: ImageHash)
    requires
        a@.len() == b@.len(),
    ensures
        hamming(a@, b@) == hamming(b@, a@),
{
    lemma_hamming_symmetric(a@, b@);
}

/// 0 <= distance(a, b) <= size: the distance never exceeds the bit count.
pub proof fn lemma_dist_bounds(a: ImageHash, b: ImageHash)
    requires
        a@.len() == b@.len(),
    ensures
        0 <= hamming(a@, b@) <= a@.len(),
{
    lemma_hamming_le_len(a@, b@);
}

} // verus!
