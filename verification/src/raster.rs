//! The raster of the escape-time image: the order in which the pixels of a
//! `width` x `height` image are visited, and the grey RGBA bytes written for
//! each pixel's escape count.

use vstd::prelude::*;

verus! {

/// Bytes per RGBA pixel.
pub const BYTES_PER_PIXEL: usize = 4;

/// Number of columns (or rows) visited for an image side of `n` pixels: the
/// scan runs from `-(n / 2)` up to, not including, `n / 2`, so an odd side
/// loses one pixel and a negative side visits none.
pub open spec fn visited_side(n: i32) -> int {
    if n >= 0 {
        2 * (n / 2)
    } else {
        0
    }
}

/// Number of pixels visited for a `width` x `height` image.
pub open spec fn visited_pixels(width: i32, height: i32) -> int {
    visited_side(width) * visited_side(height)
}

/// The point visited `k`-th: rows go from `y = -(height / 2)` upwards, and
/// within a row `x` goes from `-(width / 2)` upwards.
pub open spec fn scan_point(width: i32, height: i32, k: int) -> (int, int) {
    (-(width / 2) + k % visited_side(width), -(height / 2) + k / visited_side(width))
}

/// Grey level of a pixel whose orbit escaped after `iterations` of at most
/// `max_iterations` steps: `255 * (iterations / max_iterations)^2`, rounded down.
pub open spec fn shade(iterations: int, max_iterations: int) -> int {
    iterations * iterations * 255 / (max_iterations * max_iterations)
}

/// Byte `channel` (0 red, 1 green, 2 blue, 3 alpha) of a pixel with the given
/// escape count: grey in the colour channels, opaque.
pub open spec fn pixel_byte(iterations: int, max_iterations: int, channel: int) -> int {
    if channel == 3 {
        255
    } else {
        shade(iterations, max_iterations)
    }
}

/// The conditions under which shading one escape count neither divides by
/// zero nor overflows: what the escape-time iteration guarantees of a count,
/// and that the squares stay within `usize`.
pub open spec fn shadeable(iterations: int, max_iterations: int) -> bool {
    &&& 0 < max_iterations
    &&& 0 <= iterations <= max_iterations
    &&& max_iterations * max_iterations <= usize::MAX
    &&& iterations * iterations * 255 <= usize::MAX
}

/// Law: a shade is a byte; an orbit that escapes at once is black, one that
/// never escapes is white.
pub proof fn lemma_shade_range(iterations: int, max_iterations: int)
    requires
        0 < max_iterations,
        0 <= iterations <= max_iterations,
    ensures
        0 <= shade(iterations, max_iterations) <= 255,
        shade(0, max_iterations) == 0,
        shade(max_iterations, max_iterations) == 255,
{
    let m2 = max_iterations * max_iterations;
    assert(0 < m2) by (nonlinear_arith)
        requires
            0 < max_iterations,
            m2 == max_iterations * max_iterations,
    ;
    assert(0 <= iterations * iterations <= m2) by (nonlinear_arith)
        requires
            0 <= iterations <= max_iterations,
            m2 == max_iterations * max_iterations,
    ;
    assert(0 <= iterations * iterations * 255 <= m2 * 255) by (nonlinear_arith)
        requires
            0 <= iterations * iterations <= m2,
    ;
    assert(iterations * iterations * 255 / m2 <= 255) by (nonlinear_arith)
        requires
            0 <= iterations * iterations * 255 <= m2 * 255,
            0 < m2,
    ;
    assert(0 <= iterations * iterations * 255 / m2) by (nonlinear_arith)
        requires
            0 <= iterations * iterations * 255,
            0 < m2,
    ;
    assert(max_iterations * max_iterations * 255 / m2 == 255) by (nonlinear_arith)
        requires
            m2 == max_iterations * max_iterations,
            0 < m2,
    ;
    assert(0int * 0int * 255 / m2 == 0) by (nonlinear_arith)
        requires
            0 < m2,
    ;
}

/// Law: a shade is the largest grey level `g` with
/// `g * max_iterations^2 <= 255 * iterations^2`.
pub proof fn lemma_shade_is_floor(iterations: int, max_iterations: int)
    requires
        0 < max_iterations,
    ensures
        shade(iterations, max_iterations) * (max_iterations * max_iterations) <= iterations
            * iterations * 255,
        iterations * iterations * 255 < (shade(iterations, max_iterations) + 1) * (max_iterations
            * max_iterations),
{
    let m2 = max_iterations * max_iterations;
    let n = iterations * iterations * 255;
    assert(0 < m2) by (nonlinear_arith)
        requires
            0 < max_iterations,
            m2 == max_iterations * max_iterations,
    ;
    vstd::arithmetic::div_mod::lemma_fundamental_div_mod(n, m2);
    vstd::arithmetic::div_mod::lemma_mod_bound(n, m2);
    let q = n / m2;
    assert(q * m2 == m2 * q) by (nonlinear_arith);
    assert((q + 1) * m2 == q * m2 + m2) by (nonlinear_arith);
}

/// Law: more iterations before escaping never give a darker pixel.
pub proof fn lemma_shade_monotonic(i: int, j: int, max_iterations: int)
    requires
        0 < max_iterations,
        0 <= i <= j,
    ensures
        shade(i, max_iterations) <= shade(j, max_iterations),
{
    let m2 = max_iterations * max_iterations;
    assert(0 < m2) by (nonlinear_arith)
        requires
            0 < max_iterations,
            m2 == max_iterations * max_iterations,
    ;
    assert(i * i * 255 <= j * j * 255) by (nonlinear_arith)
        requires
            0 <= i <= j,
    ;
    vstd::arithmetic::div_mod::lemma_div_is_ordered(i * i * 255, j * j * 255, m2);
}

/// Number of bytes in the RGBA buffer of a `width` x `height` image.
pub fn image_buffer_len(width: usize, height: usize) -> (len: usize)
    requires
        width * height * BYTES_PER_PIXEL <= usize::MAX,
    ensures
        len == width * height * BYTES_PER_PIXEL,
{
    assert(width * height <= usize::MAX) by (nonlinear_arith)
        requires
            width * height * 4 <= usize::MAX,
            0 <= width,
            0 <= height,
    ;
    width * height * BYTES_PER_PIXEL
}

/// Grey level of one pixel (see `shade`).
pub fn pixel_shade(iterations: usize, max_iterations: usize) -> (grey: u8)
    requires
        shadeable(iterations as int, max_iterations as int),
    ensures
        grey == shade(iterations as int, max_iterations as int),
        grey * (max_iterations * max_iterations) <= iterations * iterations * 255,
        iterations * iterations * 255 < (grey + 1) * (max_iterations * max_iterations),
{
    proof {
        lemma_shade_range(iterations as int, max_iterations as int);
        lemma_shade_is_floor(iterations as int, max_iterations as int);
    }
    let max_squared = max_iterations * max_iterations;
    (iterations * iterations * 255 / max_squared) as u8
}

/// The points of a `width` x `height` image in the order in which they are
/// shaded (see `scan_point`).
pub fn scan_coordinates(width: i32, height: i32) -> (points: Vec<(i32, i32)>)
    requires
        visited_pixels(width, height) <= usize::MAX,
    ensures
        points.len() == visited_pixels(width, height),
        forall|k: int|
            0 <= k < points.len() ==> (#[trigger] points@[k].0 as int, points@[k].1 as int)
                == scan_point(width, height, k),
        width >= 0 && height >= 0 ==> points.len() == (2 * (width / 2)) * (2 * (height / 2)),
        width < 0 || height < 0 ==> points.len() == 0,
        forall|k: int|
            0 <= k < points.len() ==> {
                &&& -(width / 2) <= #[trigger] points@[k].0 < width / 2
                &&& -(height / 2) <= points@[k].1 < height / 2
            },
        forall|k: int|
            0 <= k < points.len() - 1 ==> {
                ||| points@[k + 1].1 == #[trigger] points@[k].1 && points@[k + 1].0 == points@[k].0
                    + 1
                ||| points@[k + 1].1 == points@[k].1 + 1 && points@[k + 1].0 == -(width / 2)
                    && points@[k].0 == width / 2 - 1
            },
{
    let mut points: Vec<(i32, i32)> = Vec::new();
    let half_width = width / 2;
    let half_height = height / 2;
    if half_width <= 0 || half_height <= 0 {
        assert(visited_side(width) == 0 || visited_side(height) == 0);
        return points;
    }
    let ghost cols: int = visited_side(width);
    assert(cols == 2 * half_width);
    assert(visited_side(height) == 2 * half_height);
    let mut y: i32 = -half_height;
    assert(y + half_height == 0);
    assert((y + half_height) * cols == 0) by (nonlinear_arith)
        requires
            y + half_height == 0,
    ;
    while y < half_height
        invariant
            half_width == width / 2,
            half_height == height / 2,
            0 < half_width,
            0 < half_height,
            cols == 2 * half_width,
            cols == visited_side(width),
            visited_pixels(width, height) <= usize::MAX,
            visited_pixels(width, height) == cols * (2 * half_height),
            -half_height <= y <= half_height,
            points.len() == (y + half_height) * cols,
            forall|k: int|
                0 <= k < points.len() ==> (#[trigger] points@[k].0 as int, points@[k].1 as int)
                    == scan_point(width, height, k),
        decreases half_height - y,
    {
        let mut x: i32 = -half_width;
        while x < half_width
            invariant
                half_width == width / 2,
                half_height == height / 2,
                0 < half_width,
                0 < half_height,
                cols == 2 * half_width,
                cols == visited_side(width),
                visited_pixels(width, height) <= usize::MAX,
                visited_pixels(width, height) == cols * (2 * half_height),
                -half_height <= y < half_height,
                -half_width <= x <= half_width,
                points.len() == (y + half_height) * cols + (x + half_width),
                forall|k: int|
                    0 <= k < points.len() ==> (#[trigger] points@[k].0 as int, points@[k].1 as int)
                        == scan_point(width, height, k),
            decreases half_width - x,
        {
            proof {
                let k = points.len() as int;
                vstd::arithmetic::div_mod::lemma_fundamental_div_mod_converse(
                    k,
                    cols,
                    y + half_height,
                    x + half_width,
                );
                assert(k < visited_pixels(width, height)) by (nonlinear_arith)
                    requires
                        k == (y + half_height) * cols + (x + half_width),
                        0 <= x + half_width < cols,
                        0 <= y + half_height < 2 * half_height,
                        visited_pixels(width, height) == cols * (2 * half_height),
                ;
            }
            points.push((x, y));
            x = x + 1;
        }
        proof {
            assert((y + 1 + half_height) * cols == (y + half_height) * cols + cols) by (nonlinear_arith);
        }
        y = y + 1;
    }
    assert(points.len() == visited_pixels(width, height)) by (nonlinear_arith)
        requires
            points.len() == (y + half_height) * cols,
            y == half_height,
            visited_pixels(width, height) == cols * (2 * half_height),
    ;
    proof {
        let rows = 2 * half_height;
        assert forall|k: int| 0 <= k < points.len() implies {
            &&& -(width / 2) <= #[trigger] points@[k].0 < width / 2
            &&& -(height / 2) <= points@[k].1 < height / 2
        } by {
            lemma_scan_step(k, cols, rows);
        }
        assert forall|k: int| 0 <= k < points.len() - 1 implies {
            ||| points@[k + 1].1 == #[trigger] points@[k].1 && points@[k + 1].0 == points@[k].0 + 1
            ||| points@[k + 1].1 == points@[k].1 + 1 && points@[k + 1].0 == -(width / 2)
                && points@[k].0 == width / 2 - 1
        } by {
            lemma_scan_step(k, cols, rows);
            assert((points@[k].0 as int, points@[k].1 as int) == scan_point(width, height, k));
            assert((#[trigger] points@[k + 1].0 as int, points@[k + 1].1 as int) == scan_point(
                width,
                height,
                k + 1,
            ));
        }
    }
    points
}

/// Position `k` of a row-major scan of `rows` rows of `cols` columns lies in
/// the grid, and the next position is either the next column of the same row
/// or the first column of the next row.
proof fn lemma_scan_step(k: int, cols: int, rows: int)
    requires
        0 < cols,
        0 <= k < cols * rows,
    ensures
        0 <= k % cols < cols,
        0 <= k / cols < rows,
        (k + 1) % cols == k % cols + 1 && (k + 1) / cols == k / cols || (k + 1) % cols == 0 && (k
            + 1) / cols == k / cols + 1 && k % cols == cols - 1,
{
    vstd::arithmetic::div_mod::lemma_fundamental_div_mod(k, cols);
    vstd::arithmetic::div_mod::lemma_mod_bound(k, cols);
    let q = k / cols;
    let r = k % cols;
    assert(0 <= q) by {
        vstd::arithmetic::div_mod::lemma_div_pos_is_pos(k, cols);
    }
    assert(q < rows) by (nonlinear_arith)
        requires
            k == cols * q + r,
            0 <= r,
            k < cols * rows,
            0 < cols,
    ;
    if r + 1 < cols {
        assert(k + 1 == q * cols + (r + 1)) by (nonlinear_arith)
            requires
                k == cols * q + r,
        ;
        vstd::arithmetic::div_mod::lemma_fundamental_div_mod_converse(k + 1, cols, q, r + 1);
    } else {
        assert(k + 1 == (q + 1) * cols + 0) by (nonlinear_arith)
            requires
                k == cols * q + r,
                r + 1 == cols,
        ;
        vstd::arithmetic::div_mod::lemma_fundamental_div_mod_converse(k + 1, cols, q + 1, 0);
    }
}

/// Writes the RGBA bytes of `iterations.len()` pixels at the start of
/// `pixels`: pixel `k` gets the grey `shade(iterations[k], max_iterations)` in
/// its three colour bytes and 255 in its alpha byte. Bytes past those pixels
/// are left as they were.
pub fn shade_pixels(pixels: &mut [u8], iterations: &[usize], max_iterations: usize)
    requires
        iterations.len() * BYTES_PER_PIXEL <= old(pixels).len(),
        max_iterations * max_iterations <= usize::MAX,
        forall|k: int|
            0 <= k < iterations.len() ==> shadeable(
                #[trigger] iterations@[k] as int,
                max_iterations as int,
            ),
    ensures
        final(pixels)@.len() == old(pixels)@.len(),
        forall|j: int|
            0 <= j < iterations.len() * BYTES_PER_PIXEL ==> #[trigger] final(pixels)@[j]
                == pixel_byte(iterations@[j / 4] as int, max_iterations as int, j % 4),
        forall|j: int|
            iterations.len() * BYTES_PER_PIXEL <= j < old(pixels)@.len()
                ==> #[trigger] final(pixels)@[j] == old(pixels)@[j],
        forall|k: int|
            0 <= k < iterations.len() ==> {
                &&& #[trigger] final(pixels)@[4 * k + 3] == 255
                &&& final(pixels)@[4 * k] == final(pixels)@[4 * k + 1]
                &&& final(pixels)@[4 * k] == final(pixels)@[4 * k + 2]
                &&& final(pixels)@[4 * k] * (max_iterations * max_iterations) <= iterations@[k]
                    * iterations@[k] * 255
                &&& iterations@[k] * iterations@[k] * 255 < (final(pixels)@[4 * k] + 1) * (
                max_iterations * max_iterations)
            },
{
    let ghost original = pixels@;
    let count = iterations.len();
    let mut k: usize = 0;
    let mut index: usize = 0;
    while k < count
        invariant
            count == iterations.len(),
            count * 4 <= pixels@.len(),
            pixels@.len() == original.len(),
            k <= count,
            index == k * 4,
            forall|i: int|
                0 <= i < iterations.len() ==> shadeable(
                    #[trigger] iterations@[i] as int,
                    max_iterations as int,
                ),
            forall|j: int|
                0 <= j < index ==> #[trigger] pixels@[j] == pixel_byte(
                    iterations@[j / 4] as int,
                    max_iterations as int,
                    j % 4,
                ),
            forall|j: int| index <= j < original.len() ==> #[trigger] pixels@[j] == original[j],
        decreases count - k,
    {
        let c = pixel_shade(iterations[k], max_iterations);
        pixels[index] = c;
        pixels[index + 1] = c;
        pixels[index + 2] = c;
        pixels[index + 3] = 255;
        proof {
            assert forall|j: int| index <= j < index + 4 implies #[trigger] pixels@[j]
                == pixel_byte(iterations@[j / 4] as int, max_iterations as int, j % 4) by {
                assert(j / 4 == k);
                assert(j % 4 == j - index);
            }
        }
        index = index + 4;
        k = k + 1;
    }
    proof {
        assert forall|k: int| 0 <= k < iterations.len() implies {
            &&& #[trigger] pixels@[4 * k + 3] == 255
            &&& pixels@[4 * k] == pixels@[4 * k + 1]
            &&& pixels@[4 * k] == pixels@[4 * k + 2]
            &&& pixels@[4 * k] * (max_iterations * max_iterations) <= iterations@[k]
                * iterations@[k] * 255
            &&& iterations@[k] * iterations@[k] * 255 < (pixels@[4 * k] + 1) * (max_iterations
                * max_iterations)
        } by {
            assert((4 * k) / 4 == k && (4 * k) % 4 == 0);
            assert((4 * k + 1) / 4 == k && (4 * k + 1) % 4 == 1);
            assert((4 * k + 2) / 4 == k && (4 * k + 2) % 4 == 2);
            assert((4 * k + 3) / 4 == k && (4 * k + 3) % 4 == 3);
            assert(pixels@[4 * k] == shade(iterations@[k] as int, max_iterations as int));
            lemma_shade_is_floor(iterations@[k] as int, max_iterations as int);
        }
    }
}

} // verus!
