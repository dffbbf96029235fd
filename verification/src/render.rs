//! Box-filter downsampling of the supersampled glyph coverage used for the
//! tray digits.
use vstd::prelude::*;

verus! {

/// Sum of `n` consecutive values of `src` starting at `start`.
pub open spec fn row_sum(src: Seq<u8>, start: int, n: nat) -> nat
    decreases n,
{
    if n == 0 {
        0
    } else {
        row_sum(src, start, (n - 1) as nat) + src[start + n - 1] as nat
    }
}

/// Sum over the first `rows` rows of the `f`-by-`f` block of `src` (a
/// `src_size`-wide image) under destination pixel `(x, y)`.
pub open spec fn block_sum(src: Seq<u8>, src_size: nat, f: nat, x: nat, y: nat, rows: nat) -> nat
    decreases rows,
{
    if rows == 0 {
        0
    } else {
        block_sum(src, src_size, f, x, y, (rows - 1) as nat) + row_sum(
            src,
            ((y * f + rows - 1) * src_size + x * f) as int,
            f,
        )
    }
}

/// The downsampling factor.
pub open spec fn box_factor(src_size: u32, dst_size: u32) -> nat {
    (src_size / dst_size) as nat
}

/// Destination pixel `k` (row-major): the average of its source block,
/// rounded down.
pub open spec fn box_pixel(src: Seq<u8>, src_size: u32, dst_size: u32, k: int) -> u8 {
    let f = box_factor(src_size, dst_size);
    (block_sum(src, src_size as nat, f, (k % dst_size as int) as nat, (k / dst_size as int) as nat, f) / (f
        * f)) as u8
}

/// The largest source index the filter reads.
pub open spec fn last_source_index(src_size: u32, dst_size: u32) -> int {
    let f = box_factor(src_size, dst_size);
    (dst_size * f - 1) * src_size + dst_size * f - 1
}

proof fn lemma_row_sum_bound(src: Seq<u8>, start: int, n: nat)
    ensures
        row_sum(src, start, n) <= n * 255,
    decreases n,
{
    if n > 0 {
        lemma_row_sum_bound(src, start, (n - 1) as nat);
    }
}

proof fn lemma_index_bound(y: int, sy: int, x: int, sx: int, f: int, d: int, s: int)
    requires
        0 <= y < d,
        0 <= x < d,
        0 <= sy < f,
        0 <= sx < f,
        f >= 1,
        s >= 0,
    ensures
        0 <= y * f + sy <= d * f - 1,
        0 <= x * f + sx <= d * f - 1,
        0 <= (y * f + sy) * s <= (d * f - 1) * s,
        (y * f + sy) * s + x * f + sx <= (d * f - 1) * s + d * f - 1,
{
    assert(y * f + sy <= d * f - 1) by (nonlinear_arith)
        requires
            y <= d - 1,
            sy <= f - 1,
            f >= 1,
    {
        assert(y * f <= (d - 1) * f);
    }
    assert(x * f + sx <= d * f - 1) by (nonlinear_arith)
        requires
            x <= d - 1,
            sx <= f - 1,
            f >= 1,
    {
        assert(x * f <= (d - 1) * f);
    }
    assert(0 <= y * f) by (nonlinear_arith)
        requires
            y >= 0,
            f >= 1,
    ;
    assert(0 <= x * f) by (nonlinear_arith)
        requires
            x >= 0,
            f >= 1,
    ;
    assert((y * f + sy) * s <= (d * f - 1) * s) by (nonlinear_arith)
        requires
            0 <= y * f + sy <= d * f - 1,
            s >= 0,
    ;
    assert(0 <= (y * f + sy) * s) by (nonlinear_arith)
        requires
            0 <= y * f + sy,
            s >= 0,
    ;
}

/// The sum of the source block under destination pixel `(x, y)`.
fn block_sum_exec(src: &[u8], src_size: u32, dst_size: u32, f: u32, x: u32, y: u32) -> (s: u32)
    requires
        dst_size > 0,
        f == box_factor(src_size, dst_size),
        f >= 1,
        x < dst_size,
        y < dst_size,
        last_source_index(src_size, dst_size) < src@.len(),
        last_source_index(src_size, dst_size) <= u32::MAX,
        f * f * 255 <= u32::MAX,
    ensures
        s == block_sum(src@, src_size as nat, f as nat, x as nat, y as nat, f as nat),
        s <= f * f * 255,
{
    let mut total: u32 = 0;
    let mut sy: u32 = 0;
    while sy < f
        invariant
            dst_size > 0,
            f == box_factor(src_size, dst_size),
            f >= 1,
            x < dst_size,
            y < dst_size,
            sy <= f,
            last_source_index(src_size, dst_size) < src@.len(),
            last_source_index(src_size, dst_size) <= u32::MAX,
            f * f * 255 <= u32::MAX,
            total == block_sum(src@, src_size as nat, f as nat, x as nat, y as nat, sy as nat),
            total <= sy * f * 255,
        decreases f - sy,
    {
        let mut row: u32 = 0;
        let mut sx: u32 = 0;
        let ghost base: int = ((y * f + sy) * src_size + x * f) as int;
        while sx < f
            invariant
                dst_size > 0,
                f == box_factor(src_size, dst_size),
                f >= 1,
                x < dst_size,
                y < dst_size,
                sy < f,
                sx <= f,
                last_source_index(src_size, dst_size) < src@.len(),
                last_source_index(src_size, dst_size) <= u32::MAX,
                base == (y * f + sy) * src_size + x * f,
                row == row_sum(src@, base, sx as nat),
                row <= sx * 255,
                f * f * 255 <= u32::MAX,
            decreases f - sx,
        {
            proof {
                lemma_index_bound(y as int, sy as int, x as int, sx as int, f as int, dst_size as int, src_size as int);
                assert(f * 255 <= f * f * 255) by (nonlinear_arith)
                    requires
                        f >= 1,
                ;
            }
            let sp = (y * f + sy) * src_size + (x * f + sx);
            assert(sp == base + sx);
            row = row + src[sp as usize] as u32;
            sx = sx + 1;
        }
        proof {
            assert(sy * f * 255 + f * 255 == (sy + 1) * f * 255) by (nonlinear_arith);
            assert((sy + 1) * f * 255 <= f * f * 255) by (nonlinear_arith)
                requires
                    sy + 1 <= f,
            ;
        }
        total = total + row;
        sy = sy + 1;
    }
    total
}

/// Averages `src_size`x`src_size` coverage down to `dst_size`x`dst_size` in
/// uniform `src_size / dst_size` blocks.
pub fn downsample_box(src: &[u8], src_size: u32, dst_size: u32) -> (out: Vec<u8>)
    requires
        dst_size > 0,
        src_size >= dst_size,
        last_source_index(src_size, dst_size) < src@.len(),
        last_source_index(src_size, dst_size) <= u32::MAX,
        box_factor(src_size, dst_size) * box_factor(src_size, dst_size) * 255 <= u32::MAX,
    ensures
        out@.len() == dst_size * dst_size,
        forall|k: int| 0 <= k < out@.len() ==> #[trigger] out@[k] == box_pixel(src@, src_size, dst_size, k),
{
    let factor = src_size / dst_size;
    proof {
        assert(factor >= 1) by (nonlinear_arith)
            requires
                src_size >= dst_size,
                dst_size > 0,
                factor == src_size / dst_size,
        ;
        assert(factor * factor >= 1) by (nonlinear_arith)
            requires
                factor >= 1,
        ;
    }
    let area = factor * factor;
    let mut out: Vec<u8> = Vec::new();
    let mut y: u32 = 0;
    while y < dst_size
        invariant
            dst_size > 0,
            factor == box_factor(src_size, dst_size),
            factor >= 1,
            area == factor * factor,
            area >= 1,
            y <= dst_size,
            out@.len() == y * dst_size,
            last_source_index(src_size, dst_size) < src@.len(),
            last_source_index(src_size, dst_size) <= u32::MAX,
            factor * factor * 255 <= u32::MAX,
            forall|k: int| 0 <= k < out@.len() ==> #[trigger] out@[k] == box_pixel(src@, src_size, dst_size, k),
        decreases dst_size - y,
    {
        let mut x: u32 = 0;
        while x < dst_size
            invariant
                dst_size > 0,
                factor == box_factor(src_size, dst_size),
                factor >= 1,
                area == factor * factor,
                area >= 1,
                y < dst_size,
                x <= dst_size,
                out@.len() == y * dst_size + x,
                last_source_index(src_size, dst_size) < src@.len(),
                last_source_index(src_size, dst_size) <= u32::MAX,
                factor * factor * 255 <= u32::MAX,
                forall|k: int| 0 <= k < out@.len() ==> #[trigger] out@[k] == box_pixel(src@, src_size, dst_size, k),
            decreases dst_size - x,
        {
            let sum = block_sum_exec(src, src_size, dst_size, factor, x, y);
            proof {
                assert(sum / area <= 255) by (nonlinear_arith)
                    requires
                        sum <= area * 255,
                        area >= 1,
                ;
                let k = y * dst_size + x;
                vstd::arithmetic::div_mod::lemma_fundamental_div_mod_converse(k as int, dst_size as int, y as int, x as int);
            }
            out.push((sum / area) as u8);
            x = x + 1;
        }
        proof {
            assert(y * dst_size + dst_size == (y + 1) * dst_size) by (nonlinear_arith);
        }
        y = y + 1;
    }
    out
}

/// A block of identical values sums to that value times its size.
proof fn lemma_uniform_sums(src: Seq<u8>, v: u8, src_size: nat, f: nat, x: nat, y: nat, rows: nat)
    requires
        forall|i: int| 0 <= i < src.len() ==> src[i] == v,
        rows <= f,
        (y * f + f - 1) * src_size + x * f + f - 1 < src.len(),
    ensures
        block_sum(src, src_size, f, x, y, rows) == rows * f * v,
    decreases rows,
{
    if rows > 0 {
        lemma_uniform_sums(src, v, src_size, f, x, y, (rows - 1) as nat);
        let base = ((y * f + rows - 1) * src_size + x * f) as int;
        assert((y * f + rows - 1) * src_size <= (y * f + f - 1) * src_size) by (nonlinear_arith)
            requires
                rows <= f,
        ;
        assert(0 <= base) by (nonlinear_arith)
            requires
                base == (y * f + rows - 1) * src_size + x * f,
                rows >= 1,
        ;
        lemma_uniform_row(src, v, base, f);
        assert(block_sum(src, src_size, f, x, y, rows) == block_sum(src, src_size, f, x, y, (rows - 1) as nat) + row_sum(src, base, f));
        assert((rows - 1) * f * v + f * v == rows * f * v) by (nonlinear_arith);
    } else {
        assert(rows * f * v == 0) by (nonlinear_arith) requires rows == 0;
    }
}

proof fn lemma_uniform_row(src: Seq<u8>, v: u8, start: int, n: nat)
    requires
        forall|i: int| 0 <= i < src.len() ==> src[i] == v,
        0 <= start,
        start + n <= src.len(),
    ensures
        row_sum(src, start, n) == n * v,
    decreases n,
{
    if n > 0 {
        lemma_uniform_row(src, v, start, (n - 1) as nat);
        assert(src[start + n - 1] == v);
        assert(row_sum(src, start, n) == row_sum(src, start, (n - 1) as nat) + v as nat);
        assert((n - 1) * v + v == n * v) by (nonlinear_arith);
    } else {
        assert(n * v == 0) by (nonlinear_arith) requires n == 0;
    }
}

/// Downsampling an image of one uniform value yields that value at
/// every destination pixel.
pub proof fn lemma_uniform_image(src: Seq<u8>, v: u8, src_size: u32, dst_size: u32, k: int)
    requires
        dst_size > 0,
        src_size >= dst_size,
        last_source_index(src_size, dst_size) < src.len(),
        forall|i: int| 0 <= i < src.len() ==> src[i] == v,
        0 <= k < dst_size * dst_size,
    ensures
        box_pixel(src, src_size, dst_size, k) == v,
{
    let f = box_factor(src_size, dst_size);
    assert(f >= 1) by (nonlinear_arith)
        requires
            src_size >= dst_size,
            dst_size > 0,
            f == src_size / dst_size,
    ;
    let x = (k % dst_size as int) as nat;
    let y = (k / dst_size as int) as nat;
    assert(y < dst_size) by (nonlinear_arith)
        requires
            0 <= k < dst_size * dst_size,
            dst_size > 0,
            y == k / dst_size as int,
    ;
    assert(x < dst_size) by (nonlinear_arith)
        requires
            dst_size > 0,
            x == k % dst_size as int,
            0 <= k,
    ;
    lemma_index_bound(y as int, f - 1, x as int, f - 1, f as int, dst_size as int, src_size as int);
    lemma_uniform_sums(src, v, src_size as nat, f, x, y, f);
    assert((f * f * v) as int / (f * f) as int == v) by (nonlinear_arith)
        requires
            f >= 1,
    ;
}

} // verus!
