//! The convolution filter: applies a kernel to every pixel of a buffer,
//! producing a fresh buffer of identical dimensions. A sampled coordinate
//! that falls outside the image contributes nothing — edge pixels sum over
//! fewer terms and are not renormalized, which darkens the borders.

use vstd::prelude::*;

use crate::kernel::Kernel;
use crate::kernel::WEIGHT_SCALE;
use crate::kernel::lemma_weight_sum_element;
use crate::kernel::lemma_weight_sum_mono;
use crate::kernel::weight_sum;
use crate::pixel::PixelBuffer;
use crate::pixel::channel_at;
use crate::pixel::lemma_index_decompose;
use crate::pixel::lemma_pixel_index;

verus! {

/// One window term for destination pixel (x, y), channel c, kernel offset
/// (j, i): the weight times the sampled source channel, or zero when the
/// sampled coordinate lies outside the image.
pub open spec fn conv_term(
    width: int,
    height: int,
    data: Seq<u8>,
    k: Kernel,
    x: int,
    y: int,
    c: int,
    j: int,
    i: int,
) -> int {
    let sx = x + i - k.side / 2;
    let sy = y + j - k.side / 2;
    if 0 <= sx < width && 0 <= sy < height {
        k.weights@[j * k.side + i] * channel_at(width, data, sx, sy, c)
    } else {
        0
    }
}

/// Partial sum of window row `j`: the terms with offset column below `i`.
pub open spec fn conv_row(
    width: int,
    height: int,
    data: Seq<u8>,
    k: Kernel,
    x: int,
    y: int,
    c: int,
    j: int,
    i: int,
) -> int
    decreases i,
{
    if i <= 0 {
        0
    } else {
        conv_row(width, height, data, k, x, y, c, j, i - 1) + conv_term(
            width,
            height,
            data,
            k,
            x,
            y,
            c,
            j,
            i - 1,
        )
    }
}

/// Sum of the full window rows below `j`.
pub open spec fn conv_rows(
    width: int,
    height: int,
    data: Seq<u8>,
    k: Kernel,
    x: int,
    y: int,
    c: int,
    j: int,
) -> int
    decreases j,
{
    if j <= 0 {
        0
    } else {
        conv_rows(width, height, data, k, x, y, c, j - 1) + conv_row(
            width,
            height,
            data,
            k,
            x,
            y,
            c,
            j - 1,
            k.side as int,
        )
    }
}

/// The blurred channel value: the full fixed-point weighted sum, rounded to
/// the nearest integer.
pub open spec fn blurred_channel(
    width: int,
    height: int,
    data: Seq<u8>,
    k: Kernel,
    x: int,
    y: int,
    c: int,
) -> int {
    (conv_rows(width, height, data, k, x, y, c, k.side as int) + (WEIGHT_SCALE as int) / 2) / (
    WEIGHT_SCALE as int)
}

/// The whole blurred byte sequence, laid out like the source buffer.
pub open spec fn blurred_data(width: int, height: int, data: Seq<u8>, k: Kernel) -> Seq<u8> {
    Seq::new(
        (4 * width * height) as nat,
        |n: int|
            blurred_channel(
                width,
                height,
                data,
                k,
                (n / 4) % width,
                (n / 4) / width,
                n % 4,
            ) as u8,
    )
}

/// The weight of one window term when the sampled coordinate lies inside
/// the image, and zero otherwise.
pub open spec fn covered_term(width: int, height: int, k: Kernel, x: int, y: int, j: int, i: int) -> int {
    let sx = x + i - k.side / 2;
    let sy = y + j - k.side / 2;
    if 0 <= sx < width && 0 <= sy < height {
        k.weights@[j * k.side + i] as int
    } else {
        0
    }
}

/// Partial in-image weight of window row `j`: offset columns below `i`.
pub open spec fn covered_row(width: int, height: int, k: Kernel, x: int, y: int, j: int, i: int) -> int
    decreases i,
{
    if i <= 0 {
        0
    } else {
        covered_row(width, height, k, x, y, j, i - 1) + covered_term(width, height, k, x, y, j, i - 1)
    }
}

/// In-image weight of the full window rows below `j`.
pub open spec fn covered_rows(width: int, height: int, k: Kernel, x: int, y: int, j: int) -> int
    decreases j,
{
    if j <= 0 {
        0
    } else {
        covered_rows(width, height, k, x, y, j - 1) + covered_row(
            width,
            height,
            k,
            x,
            y,
            j - 1,
            k.side as int,
        )
    }
}

/// The kernel mass that lands inside the image for destination pixel (x, y):
/// the sum of the weights of the window terms that are not skipped.
pub open spec fn covered_mass(width: int, height: int, k: Kernel, x: int, y: int) -> int {
    covered_rows(width, height, k, x, y, k.side as int)
}

proof fn lemma_covered_row_nonneg(width: int, height: int, k: Kernel, x: int, y: int, j: int, i: int)
    ensures
        covered_row(width, height, k, x, y, j, i) >= 0,
    decreases i,
{
    if i > 0 {
        lemma_covered_row_nonneg(width, height, k, x, y, j, i - 1);
    }
}

proof fn lemma_covered_rows_nonneg(width: int, height: int, k: Kernel, x: int, y: int, j: int)
    ensures
        covered_rows(width, height, k, x, y, j) >= 0,
    decreases j,
{
    if j > 0 {
        lemma_covered_rows_nonneg(width, height, k, x, y, j - 1);
        lemma_covered_row_nonneg(width, height, k, x, y, j - 1, k.side as int);
    }
}

proof fn lemma_covered_row_le(width: int, height: int, k: Kernel, x: int, y: int, j: int, i: int)
    requires
        k.wf(),
        0 <= j < k.side,
        0 <= i <= k.side,
    ensures
        covered_row(width, height, k, x, y, j, i) <= weight_sum(k.weights@, j * k.side + i)
            - weight_sum(k.weights@, j * k.side),
    decreases i,
{
    assert(0 <= j * k.side && j * k.side + k.side <= k.side * k.side) by (nonlinear_arith)
        requires
            0 <= j < k.side,
    ;
    if i > 0 {
        lemma_covered_row_le(width, height, k, x, y, j, i - 1);
    }
}

proof fn lemma_covered_rows_le(width: int, height: int, k: Kernel, x: int, y: int, j: int)
    requires
        k.wf(),
        0 <= j <= k.side,
    ensures
        covered_rows(width, height, k, x, y, j) <= weight_sum(k.weights@, j * k.side),
    decreases j,
{
    if j > 0 {
        lemma_covered_rows_le(width, height, k, x, y, j - 1);
        lemma_covered_row_le(width, height, k, x, y, j - 1, k.side as int);
        assert((j - 1) * k.side + k.side == j * k.side) by (nonlinear_arith);
    } else {
        assert(j * k.side == 0) by (nonlinear_arith)
            requires
                j == 0,
        ;
    }
}

/// The in-image kernel mass never exceeds the full mass of one.
pub proof fn lemma_covered_mass_le_scale(width: int, height: int, k: Kernel, x: int, y: int)
    requires
        k.wf(),
    ensures
        covered_mass(width, height, k, x, y) <= WEIGHT_SCALE as int,
{
    lemma_covered_rows_le(width, height, k, x, y, k.side as int);
    assert(k.side * k.side == k.weights@.len()) by (nonlinear_arith)
        requires
            k.weights@.len() == k.side * k.side,
    ;
}

/// Blurring a uniform image never brightens it: with at most the full mass
/// of one applied to the single value, rounding cannot exceed that value.
pub proof fn lemma_blur_uniform_never_brightens(
    width: int,
    height: int,
    data: Seq<u8>,
    k: Kernel,
    v: u8,
    x: int,
    y: int,
    c: int,
)
    requires
        k.wf(),
        data.len() == 4 * width * height,
        forall|n: int| 0 <= n < data.len() ==> data[n] == v,
        0 <= c < 4,
    ensures
        blurred_channel(width, height, data, k, x, y, c) <= v,
{
    lemma_conv_rows_uniform(width, height, data, k, v, x, y, c, k.side as int);
    lemma_covered_rows_nonneg(width, height, k, x, y, k.side as int);
    lemma_covered_mass_le_scale(width, height, k, x, y);
    let cov = covered_mass(width, height, k, x, y);
    assert((v * cov + (WEIGHT_SCALE as int) / 2) / (WEIGHT_SCALE as int) <= v) by (nonlinear_arith)
        requires
            0 <= cov <= WEIGHT_SCALE as int,
            v >= 0,
    ;
}

proof fn lemma_conv_row_uniform(
    width: int,
    height: int,
    data: Seq<u8>,
    k: Kernel,
    v: u8,
    x: int,
    y: int,
    c: int,
    j: int,
    i: int,
)
    requires
        data.len() == 4 * width * height,
        forall|n: int| 0 <= n < data.len() ==> data[n] == v,
        0 <= c < 4,
    ensures
        conv_row(width, height, data, k, x, y, c, j, i) == v * covered_row(
            width,
            height,
            k,
            x,
            y,
            j,
            i,
        ),
    decreases i,
{
    if i <= 0 {
        assert(v * 0 == 0) by (nonlinear_arith);
    } else {
        lemma_conv_row_uniform(width, height, data, k, v, x, y, c, j, i - 1);
        let sx = x + (i - 1) - k.side / 2;
        let sy = y + j - k.side / 2;
        if 0 <= sx < width && 0 <= sy < height {
            lemma_pixel_index(width, height, sx, sy, c);
            assert(channel_at(width, data, sx, sy, c) == v);
        }
        vstd::arithmetic::mul::lemma_mul_is_distributive_add(
            v as int,
            covered_row(width, height, k, x, y, j, i - 1),
            covered_term(width, height, k, x, y, j, i - 1),
        );
        assert(k.weights@[j * k.side + i - 1] * (v as int) == (v as int) * (k.weights@[j * k.side
            + i - 1] as int)) by (nonlinear_arith);
    }
}

proof fn lemma_conv_rows_uniform(
    width: int,
    height: int,
    data: Seq<u8>,
    k: Kernel,
    v: u8,
    x: int,
    y: int,
    c: int,
    j: int,
)
    requires
        data.len() == 4 * width * height,
        forall|n: int| 0 <= n < data.len() ==> data[n] == v,
        0 <= c < 4,
    ensures
        conv_rows(width, height, data, k, x, y, c, j) == v * covered_rows(
            width,
            height,
            k,
            x,
            y,
            j,
        ),
    decreases j,
{
    if j <= 0 {
        assert(v * 0 == 0) by (nonlinear_arith);
    } else {
        lemma_conv_rows_uniform(width, height, data, k, v, x, y, c, j - 1);
        lemma_conv_row_uniform(width, height, data, k, v, x, y, c, j - 1, k.side as int);
        vstd::arithmetic::mul::lemma_mul_is_distributive_add(
            v as int,
            covered_rows(width, height, k, x, y, j - 1),
            covered_row(width, height, k, x, y, j - 1, k.side as int),
        );
    }
}

proof fn lemma_covered_row_full(
    width: int,
    height: int,
    k: Kernel,
    x: int,
    y: int,
    j: int,
    i: int,
)
    requires
        k.wf(),
        k.side / 2 <= x,
        x + k.side - k.side / 2 <= width,
        k.side / 2 <= y,
        y + k.side - k.side / 2 <= height,
        0 <= j < k.side,
        0 <= i <= k.side,
    ensures
        covered_row(width, height, k, x, y, j, i) == weight_sum(k.weights@, j * k.side + i)
            - weight_sum(k.weights@, j * k.side),
    decreases i,
{
    if i > 0 {
        lemma_covered_row_full(width, height, k, x, y, j, i - 1);
    }
}

proof fn lemma_covered_rows_full(width: int, height: int, k: Kernel, x: int, y: int, j: int)
    requires
        k.wf(),
        k.side / 2 <= x,
        x + k.side - k.side / 2 <= width,
        k.side / 2 <= y,
        y + k.side - k.side / 2 <= height,
        0 <= j <= k.side,
    ensures
        covered_rows(width, height, k, x, y, j) == weight_sum(k.weights@, j * k.side),
    decreases j,
{
    if j > 0 {
        lemma_covered_rows_full(width, height, k, x, y, j - 1);
        lemma_covered_row_full(width, height, k, x, y, j - 1, k.side as int);
        assert((j - 1) * k.side + k.side == j * k.side) by (nonlinear_arith);
    } else {
        assert(j * k.side == 0) by (nonlinear_arith)
            requires
                j == 0,
        ;
    }
}

/// Interior pixels of a uniform image are unchanged by the blur: where the
/// whole kernel window lies inside the image, the full mass of one is
/// applied to the single value, and rounding returns it exactly.
pub proof fn lemma_blur_uniform_interior(
    width: int,
    height: int,
    data: Seq<u8>,
    k: Kernel,
    v: u8,
    x: int,
    y: int,
    c: int,
)
    requires
        k.wf(),
        data.len() == 4 * width * height,
        forall|n: int| 0 <= n < data.len() ==> data[n] == v,
        0 <= c < 4,
        k.side / 2 <= x,
        x + k.side - k.side / 2 <= width,
        k.side / 2 <= y,
        y + k.side - k.side / 2 <= height,
    ensures
        blurred_channel(width, height, data, k, x, y, c) == v,
{
    lemma_conv_rows_uniform(width, height, data, k, v, x, y, c, k.side as int);
    lemma_covered_rows_full(width, height, k, x, y, k.side as int);
    assert(k.side * k.side == k.weights@.len()) by (nonlinear_arith)
        requires
            k.weights@.len() == k.side * k.side,
    ;
    assert(covered_mass(width, height, k, x, y) == WEIGHT_SCALE as int);
    assert((v * (WEIGHT_SCALE as int) + (WEIGHT_SCALE as int) / 2) / (WEIGHT_SCALE as int) == v)
        by (nonlinear_arith)
        requires
            v >= 0,
    ;
}

/// Boundary darkening of a uniform image: where enough kernel mass falls
/// outside the image (more than half a rounding step relative to the value),
/// the blurred channel is strictly below the uniform value. At corners of a
/// bright image a Gaussian kernel of any appreciable spread loses that much,
/// since the skipped terms are never renormalized.
pub proof fn lemma_blur_uniform_boundary(
    width: int,
    height: int,
    data: Seq<u8>,
    k: Kernel,
    v: u8,
    x: int,
    y: int,
    c: int,
)
    requires
        k.wf(),
        data.len() == 4 * width * height,
        forall|n: int| 0 <= n < data.len() ==> data[n] == v,
        0 <= c < 4,
        2 * (v as int) * ((WEIGHT_SCALE as int) - covered_mass(width, height, k, x, y)) > (
        WEIGHT_SCALE as int),
    ensures
        blurred_channel(width, height, data, k, x, y, c) < v,
{
    lemma_conv_rows_uniform(width, height, data, k, v, x, y, c, k.side as int);
    lemma_covered_rows_nonneg(width, height, k, x, y, k.side as int);
    let cov = covered_mass(width, height, k, x, y);
    assert((v * cov + (WEIGHT_SCALE as int) / 2) / (WEIGHT_SCALE as int) < v) by (nonlinear_arith)
        requires
            2 * (v as int) * ((WEIGHT_SCALE as int) - cov) > (WEIGHT_SCALE as int),
            cov >= 0,
            v >= 0,
    ;
}

/// Computes one blurred channel byte: the weighted sum over the kernel
/// window centered on (x, y), skipping out-of-bounds samples, rounded to the
/// nearest integer.
#[verifier::loop_isolation(false)]
fn blurred_channel_at(src: &PixelBuffer, k: &Kernel, x: usize, y: usize, c: usize) -> (r: u8)
    requires
        src.wf(),
        k.wf(),
        x < src.width,
        y < src.height,
        c < 4,
    ensures
        r as int == blurred_channel(
            src.width as int,
            src.height as int,
            src.data@,
            *k,
            x as int,
            y as int,
            c as int,
        ),
{
    let side = k.side;
    let half = side / 2;
    let n_bytes = src.data.len();
    proof {
        assert(4 * src.width <= 4 * src.width * src.height) by (nonlinear_arith)
            requires
                src.height >= 1,
                src.width >= 0,
        ;
        assert(4 * src.height <= 4 * src.width * src.height) by (nonlinear_arith)
            requires
                src.width >= 1,
                src.height >= 0,
        ;
        assert(side * side <= 65535 * 65535) by (nonlinear_arith)
            requires
                side <= 65535,
        ;
    }
    let mut acc: u64 = 0;
    let mut j: usize = 0;
    while j < side
        invariant
            j <= side,
            acc == conv_rows(
                src.width as int,
                src.height as int,
                src.data@,
                *k,
                x as int,
                y as int,
                c as int,
                j as int,
            ),
            acc <= 255 * weight_sum(k.weights@, (j * side) as int),
            j * side <= side * side,
        decreases side - j,
    {
        let mut i: usize = 0;
        proof {
            assert((j + 1) * side == j * side + side) by (nonlinear_arith);
            assert((j + 1) * side <= side * side) by (nonlinear_arith)
                requires
                    j + 1 <= side,
                    side >= 0,
            ;
        }
        while i < side
            invariant
                i <= side,
                acc == conv_rows(
                    src.width as int,
                    src.height as int,
                    src.data@,
                    *k,
                    x as int,
                    y as int,
                    c as int,
                    j as int,
                ) + conv_row(
                    src.width as int,
                    src.height as int,
                    src.data@,
                    *k,
                    x as int,
                    y as int,
                    c as int,
                    j as int,
                    i as int,
                ),
                acc <= 255 * weight_sum(k.weights@, (j * side + i) as int),
            decreases side - i,
        {
            let m = j * side + i;
            let w = k.weights[m];
            proof {
                lemma_weight_sum_element(k.weights@, m as int);
                lemma_weight_sum_mono(k.weights@, (m + 1) as int, k.weights@.len() as int);
            }
            let sxi = x + i;
            let syj = y + j;
            if sxi >= half && sxi - half < src.width && syj >= half && syj - half < src.height {
                let sx = sxi - half;
                let sy = syj - half;
                proof {
                    lemma_pixel_index(
                        src.width as int,
                        src.height as int,
                        sx as int,
                        sy as int,
                        c as int,
                    );
                }
                let idx = 4 * (sy * src.width + sx) + c;
                let ch = src.data[idx];
                proof {
                    assert(w * ch <= w * 255) by (nonlinear_arith)
                        requires
                            ch <= 255,
                            w >= 0,
                    ;
                }
                acc = acc + w * (ch as u64);
            }
            i = i + 1;
        }
        j = j + 1;
    }
    proof {
        assert(acc <= 255 * (WEIGHT_SCALE as int));
    }
    let v = (acc + WEIGHT_SCALE / 2) / WEIGHT_SCALE;
    v as u8
}

/// Applies the kernel to every pixel of the source, producing a fresh buffer
/// of identical width and height whose bytes are the blurred channels.
#[verifier::loop_isolation(false)]
pub fn convolve(src: &PixelBuffer, k: &Kernel) -> (r: PixelBuffer)
    requires
        src.wf(),
        k.wf(),
    ensures
        r.wf(),
        r.width == src.width,
        r.height == src.height,
        r.data@ == blurred_data(src.width as int, src.height as int, src.data@, *k),
{
    let width = src.width;
    let height = src.height;
    let ghost target = blurred_data(width as int, height as int, src.data@, *k);
    let mut data: Vec<u8> = Vec::new();
    let mut y: usize = 0;
    while y < height
        invariant
            y <= height,
            data@.len() == 4 * (y * width),
            forall|n: int| 0 <= n < data@.len() ==> data@[n] == target[n],
        decreases height - y,
    {
        let mut x: usize = 0;
        proof {
            assert((y + 1) * width == y * width + width) by (nonlinear_arith);
            assert(4 * ((y + 1) * width) <= 4 * width * height) by (nonlinear_arith)
                requires
                    y + 1 <= height,
                    width >= 0,
            ;
        }
        while x < width
            invariant
                x <= width,
                data@.len() == 4 * (y * width + x),
                forall|n: int| 0 <= n < data@.len() ==> data@[n] == target[n],
            decreases width - x,
        {
            let mut c: usize = 0;
            while c < 4
                invariant
                    c <= 4,
                    data@.len() == 4 * (y * width + x) + c,
                    forall|n: int| 0 <= n < data@.len() ==> data@[n] == target[n],
                decreases 4 - c,
            {
                proof {
                    lemma_pixel_index(width as int, height as int, x as int, y as int, c as int);
                    lemma_index_decompose(width as int, x as int, y as int, c as int);
                }
                let v = blurred_channel_at(src, k, x, y, c);
                data.push(v);
                c = c + 1;
            }
            x = x + 1;
        }
        y = y + 1;
    }
    proof {
        assert(4 * (height * width) == 4 * width * height) by (nonlinear_arith);
        assert(data@ =~= target);
    }
    PixelBuffer { width, height, data }
}

} // verus!
