//! Operations on square grids held in row-major order: the mean-threshold
//! bit pattern and the top-left crop that keeps the low-frequency block of a
//! transformed grid.

use vstd::prelude::*;

use crate::bits::hamming;
use crate::bits::lemma_hamming_self;

verus! {

/// Sum of all values of an intensity grid.
pub open spec fn grid_sum(s: Seq<u8>) -> int
    decreases s.len(),
{
    if s.len() == 0 {
        0
    } else {
        grid_sum(s.drop_last()) + s.last()
    }
}

/// Arithmetic mean of the grid values, with truncating division.
pub open spec fn grid_mean(s: Seq<u8>) -> int
    recommends
        s.len() > 0,
{
    grid_sum(s) / (s.len() as int)
}

/// The mean-threshold bit pattern: one bit per value, in the grid's own
/// row-major order, set exactly when the value reaches the mean of the whole
/// grid. Ties round to `true`.
pub open spec fn mean_bits(s: Seq<u8>) -> Seq<bool> {
    Seq::new(s.len(), |i: int| s[i] as int >= grid_mean(s))
}

/// Thresholding one grid twice gives two bit patterns at Hamming distance
/// zero.
pub proof fn lemma_mean_bits_identity(g: Seq<u8>)
    ensures
        hamming(mean_bits(g), mean_bits(g)) == 0,
{
    lemma_hamming_self(mean_bits(g));
}

proof fn lemma_grid_sum_take_step(s: Seq<u8>, i: int)
    requires
        0 <= i < s.len(),
    ensures
        grid_sum(s.take(i + 1)) == grid_sum(s.take(i)) + s[i],
{
    let s1 = s.take(i + 1);
    assert(s1.drop_last() =~= s.take(i));
    assert(s1.last() == s[i]);
}

/// Threshold every grid value against the truncated arithmetic mean of the
/// whole grid, in row-major order; a value equal to the mean gives `true`.
pub fn mean_hash_bits(vals: &Vec<u8>) -> (bits: Vec<bool>)
    requires
        1 <= vals@.len(),
        vals@.len() * 255 <= u64::MAX,
    ensures
        bits@ == mean_bits(vals@),
{
    let n = vals.len();
    let mut sum: u64 = 0;
    let mut i: usize = 0;
    while i < n
        invariant
            n == vals@.len(),
            i <= n,
            vals@.len() * 255 <= u64::MAX,
            sum == grid_sum(vals@.take(i as int)),
            sum <= i * 255,
        decreases n - i,
    {
        proof {
            lemma_grid_sum_take_step(vals@, i as int);
        }
        sum = sum + vals[i] as u64;
        i = i + 1;
    }
    proof {
        assert(vals@.take(n as int) =~= vals@);
    }
    let mean: u64 = sum / n as u64;
    let mut bits: Vec<bool> = Vec::new();
    i = 0;
    while i < n
        invariant
            n == vals@.len(),
            i <= n,
            mean == grid_mean(vals@),
            bits@.len() == i,
            forall|j: int| 0 <= j < i ==> bits@[j] == (vals@[j] as int >= grid_mean(vals@)),
        decreases n - i,
    {
        bits.push(vals[i] as u64 >= mean);
        i = i + 1;
    }
    proof {
        assert(bits@ =~= mean_bits(vals@));
    }
    bits
}

/// The first `rows` cropped rows: for each kept row, the first `new_side`
/// entries of that row of the `side`-wide grid, concatenated in row order.
pub open spec fn crop_rows<T>(s: Seq<T>, side: int, new_side: int, rows: int) -> Seq<T>
    decreases rows,
{
    if rows <= 0 {
        Seq::empty()
    } else {
        crop_rows(s, side, new_side, rows - 1) + s.subrange(
            (rows - 1) * side,
            (rows - 1) * side + new_side,
        )
    }
}

/// The top-left `new_side` x `new_side` block of a row-major `side` x `side`
/// grid, in row-major order.
pub open spec fn crop_spec<T>(s: Seq<T>, side: int, new_side: int) -> Seq<T>
    recommends
        0 <= new_side <= side,
        s.len() == side * side,
{
    crop_rows(s, side, new_side, new_side)
}

pub proof fn lemma_crop_rows_len<T>(s: Seq<T>, side: int, new_side: int, rows: int)
    requires
        0 <= new_side <= side,
        0 <= rows,
        rows * side <= s.len(),
    ensures
        crop_rows(s, side, new_side, rows).len() == rows * new_side,
    decreases rows,
{
    if rows <= 0 {
        assert(rows * new_side == 0) by (nonlinear_arith)
            requires
                rows == 0,
        ;
    } else {
        assert(0 <= (rows - 1) * side && (rows - 1) * side + new_side <= rows * side
            && (rows - 1) * side <= rows * side) by (nonlinear_arith)
            requires
                0 <= new_side <= side,
                1 <= rows,
        ;
        lemma_crop_rows_len(s, side, new_side, rows - 1);
        assert(s.subrange((rows - 1) * side, (rows - 1) * side + new_side).len() == new_side);
        assert((rows - 1) * new_side + new_side == rows * new_side) by (nonlinear_arith);
    }
}

proof fn lemma_crop_rows_entry<T>(s: Seq<T>, side: int, new_side: int, rows: int, r: int, c: int)
    requires
        0 <= new_side <= side,
        0 <= r < rows,
        0 <= c < new_side,
        rows * side <= s.len(),
    ensures
        crop_rows(s, side, new_side, rows)[r * new_side + c] == s[r * side + c],
    decreases rows,
{
    assert(0 <= (rows - 1) * side && (rows - 1) * side + new_side <= rows * side && (rows - 1)
        * side <= rows * side) by (nonlinear_arith)
        requires
            0 <= new_side <= side,
            1 <= rows,
    ;
    lemma_crop_rows_len(s, side, new_side, rows - 1);
    if r == rows - 1 {
        assert(r * new_side + c - (rows - 1) * new_side == c);
    } else {
        lemma_crop_rows_entry(s, side, new_side, rows - 1, r, c);
        assert(r * new_side + c < (rows - 1) * new_side) by (nonlinear_arith)
            requires
                0 <= c < new_side,
                0 <= r < rows - 1,
        ;
    }
}

/// Cropping keeps exactly the top-left block: entry (r, c) of the cropped
/// grid is entry (r, c) of the original grid, for every r, c below the new
/// side length.
pub proof fn lemma_crop_entry<T>(s: Seq<T>, side: int, new_side: int, r: int, c: int)
    requires
        0 <= new_side <= side,
        0 <= r < new_side,
        0 <= c < new_side,
        s.len() == side * side,
    ensures
        crop_spec(s, side, new_side)[r * new_side + c] == s[r * side + c],
{
    assert(new_side * side <= side * side) by (nonlinear_arith)
        requires
            0 <= new_side <= side,
    ;
    lemma_crop_rows_entry(s, side, new_side, new_side, r, c);
}

/// Keep the top-left `new_side` x `new_side` block of a row-major
/// `side` x `side` grid, preserving row-major order. For a transformed grid
/// this is the low-frequency block that the frequency-domain hash retains.
pub fn crop_top_left<T: Copy>(grid: &Vec<T>, side: usize, new_side: usize) -> (out: Vec<T>)
    requires
        new_side <= side,
        grid@.len() == side * side,
    ensures
        out@ == crop_spec(grid@, side as int, new_side as int),
        out@.len() == new_side * new_side,
{
    let n = grid.len();
    let mut out: Vec<T> = Vec::new();
    let mut r: usize = 0;
    while r < new_side
        invariant
            n == grid@.len(),
            grid@.len() == side * side,
            new_side <= side,
            r <= new_side,
            out@ == crop_rows(grid@, side as int, new_side as int, r as int),
        decreases new_side - r,
    {
        let mut c: usize = 0;
        proof {
            let ri = r as int;
            let si = side as int;
            assert(0 <= ri * si && ri * si <= si * si) by (nonlinear_arith)
                requires
                    0 <= ri <= si,
            ;
            assert(out@ =~= out@ + grid@.subrange(ri * si, ri * si + 0));
        }
        while c < new_side
            invariant
                n == grid@.len(),
                grid@.len() == side * side,
                new_side <= side,
                r < new_side,
                c <= new_side,
                out@ == crop_rows(grid@, side as int, new_side as int, r as int) + grid@.subrange(
                    (r as int) * (side as int),
                    (r as int) * (side as int) + (c as int),
                ),
            decreases new_side - c,
        {
            assert((r as int) * (side as int) + (c as int) < (side as int) * (side as int))
                by (nonlinear_arith)
                requires
                    r < new_side,
                    c < new_side,
                    new_side <= side,
            ;
            let x = grid[r * side + c];
            proof {
                let ri = r as int;
                let ci = c as int;
                let si = side as int;
                let ni = new_side as int;
                assert(0 <= ri * si && ri * si + ci + 1 <= si * si);
                assert(grid@.subrange(ri * si, ri * si + ci + 1) =~= grid@.subrange(
                    ri * si,
                    ri * si + ci,
                ).push(grid@[ri * si + ci]));
                assert((crop_rows(grid@, si, ni, ri) + grid@.subrange(ri * si, ri * si + ci)).push(
                    grid@[ri * si + ci],
                ) =~= crop_rows(grid@, si, ni, ri) + grid@.subrange(ri * si, ri * si + ci + 1));
            }
            out.push(x);
            c = c + 1;
        }
        proof {
            let ri = r as int;
            let si = side as int;
            let ni = new_side as int;
            assert(crop_rows(grid@, si, ni, ri + 1) == crop_rows(grid@, si, ni, ri)
                + grid@.subrange(ri * si, ri * si + ni));
        }
        r = r + 1;
    }
    proof {
        let si = side as int;
        let ni = new_side as int;
        assert(ni * si <= si * si) by (nonlinear_arith)
            requires
                0 <= ni <= si,
        ;
        lemma_crop_rows_len(grid@, si, ni, ni);
    }
    out
}

} // verus!
