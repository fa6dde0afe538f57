//! The in-memory pixel buffer and its pointwise transforms.

use vstd::prelude::*;

verus! {

/// The byte of channel `c` of the pixel at `(x, y)` in a row-major RGBA
/// byte sequence of the given width.
pub open spec fn channel_at(width: int, data: Seq<u8>, x: int, y: int, c: int) -> u8 {
    data[4 * (y * width + x) + c]
}

/// A pixel coordinate and channel index into a row-major RGBA byte sequence
/// stays within the buffer.
pub proof fn lemma_pixel_index(width: int, height: int, x: int, y: int, c: int)
    by (nonlinear_arith)
    requires
        0 <= x < width,
        0 <= y < height,
        0 <= c < 4,
    ensures
        0 <= 4 * (y * width + x) + c < 4 * width * height,
{
}

/// How a flat byte index decomposes into a pixel coordinate and a channel.
pub proof fn lemma_index_decompose(width: int, x: int, y: int, c: int)
    requires
        0 <= x < width,
        0 <= y,
        0 <= c < 4,
    ensures
        (4 * (y * width + x) + c) / 4 == y * width + x,
        (4 * (y * width + x) + c) % 4 == c,
        (y * width + x) / width == y,
        (y * width + x) % width == x,
{
    vstd::arithmetic::div_mod::lemma_fundamental_div_mod_converse(
        4 * (y * width + x) + c,
        4,
        y * width + x,
        c,
    );
    vstd::arithmetic::div_mod::lemma_fundamental_div_mod_converse(y * width + x, width, y, x);
}

/// A 2D grid of `width * height` pixels, stored row-major, four bytes per
/// pixel: red, green, blue, alpha, each in `[0, 255]`.
pub struct PixelBuffer {
    pub width: usize,
    pub height: usize,
    pub data: Vec<u8>,
}

impl PixelBuffer {
    /// Well-formedness: the byte length matches the dimensions exactly.
    pub open spec fn wf(self) -> bool {
        self.data@.len() == 4 * self.width * self.height
    }

    /// Builds a buffer from raw RGBA bytes; rejects a length mismatch.
    pub fn new(width: usize, height: usize, data: Vec<u8>) -> (r: Option<PixelBuffer>)
        ensures
            r is Some <==> data@.len() == 4 * width * height,
            r matches Some(b) ==> b.wf() && b.width == width && b.height == height
                && b.data@ == data@,
    {
        let n = data.len();
        proof {
            assert(4 * (width * height) == 4 * width * height) by (nonlinear_arith);
        }
        let pixels = match width.checked_mul(height) {
            Some(p) => p,
            None => {
                proof {
                    assert(n < width * height <= 4 * (width * height)) by (nonlinear_arith)
                        requires
                            width * height > usize::MAX,
                            n <= usize::MAX,
                    ;
                }
                return None;
            },
        };
        let bytes = match pixels.checked_mul(4) {
            Some(b) => b,
            None => {
                return None;
            },
        };
        if n == bytes {
            Some(PixelBuffer { width, height, data })
        } else {
            None
        }
    }

    /// Replaces each of the three color channels by 255 minus its value; the
    /// alpha channel passes through unchanged. The output is a fresh buffer
    /// of identical dimensions.
    #[verifier::loop_isolation(false)]
    pub fn invert(&self) -> (r: PixelBuffer)
        requires
            self.wf(),
        ensures
            r.wf(),
            r.width == self.width,
            r.height == self.height,
            r.data@ == inverted_data(self.data@),
    {
        let n = self.data.len();
        let mut data: Vec<u8> = Vec::new();
        let mut m: usize = 0;
        while m < n
            invariant
                m <= n,
                data@.len() == m,
                forall|t: int| 0 <= t < m ==> data@[t] == inverted_data(self.data@)[t],
            decreases n - m,
        {
            if m % 4 == 3 {
                data.push(self.data[m]);
            } else {
                data.push(255 - self.data[m]);
            }
            m = m + 1;
        }
        proof {
            assert(data@ =~= inverted_data(self.data@));
        }
        PixelBuffer { width: self.width, height: self.height, data }
    }

    /// Mirrors the image left to right: the pixel at (x, y) moves to
    /// (width - 1 - x, y). All four channels pass through unchanged. The
    /// output is a fresh buffer of identical dimensions.
    #[verifier::loop_isolation(false)]
    pub fn flip_horizontal(&self) -> (r: PixelBuffer)
        requires
            self.wf(),
        ensures
            r.wf(),
            r.width == self.width,
            r.height == self.height,
            r.data@ == flipped_data(self.width as int, self.height as int, self.data@),
    {
        let width = self.width;
        let height = self.height;
        let n_bytes = self.data.len();
        let ghost target = flipped_data(width as int, height as int, self.data@);
        let mut data: Vec<u8> = Vec::new();
        let mut y: usize = 0;
        while y < height
            invariant
                y <= height,
                data@.len() == 4 * (y * width),
                forall|n: int| 0 <= n < data@.len() ==> data@[n] == target[n],
            decreases height - y,
        {
            let mut x: usize = 0;
            proof {
                assert((y + 1) * width == y * width + width) by (nonlinear_arith);
                assert(4 * ((y + 1) * width) <= 4 * width * height) by (nonlinear_arith)
                    requires
                        y + 1 <= height,
                        width >= 0,
                ;
            }
            while x < width
                invariant
                    x <= width,
                    data@.len() == 4 * (y * width + x),
                    forall|n: int| 0 <= n < data@.len() ==> data@[n] == target[n],
                decreases width - x,
            {
                let mut c: usize = 0;
                while c < 4
                    invariant
                        c <= 4,
                        data@.len() == 4 * (y * width + x) + c,
                        forall|n: int| 0 <= n < data@.len() ==> data@[n] == target[n],
                    decreases 4 - c,
                {
                    proof {
                        lemma_pixel_index(width as int, height as int, x as int, y as int, c as int);
                        lemma_index_decompose(width as int, x as int, y as int, c as int);
                        lemma_pixel_index(
                            width as int,
                            height as int,
                            width - 1 - x,
                            y as int,
                            c as int,
                        );
                    }
                    let sidx = 4 * (y * width + (width - 1 - x)) + c;
                    data.push(self.data[sidx]);
                    c = c + 1;
                }
                x = x + 1;
            }
            y = y + 1;
        }
        proof {
            assert(4 * (height * width) == 4 * width * height) by (nonlinear_arith);
            assert(data@ =~= target);
        }
        PixelBuffer { width, height, data }
    }
}

/// The bytes of an inverted image: color channels become 255 minus their
/// value, every fourth byte (alpha) is unchanged.
pub open spec fn inverted_data(data: Seq<u8>) -> Seq<u8> {
    Seq::new(
        data.len(),
        |n: int|
            if n % 4 == 3 {
                data[n]
            } else {
                (255 - data[n]) as u8
            },
    )
}

/// The bytes of a horizontally mirrored image: the channel at (x, y, c)
/// takes its value from (width - 1 - x, y, c).
pub open spec fn flipped_data(width: int, height: int, data: Seq<u8>) -> Seq<u8> {
    Seq::new(
        data.len(),
        |n: int| data[4 * ((n / 4) / width * width + (width - 1 - (n / 4) % width)) + n % 4],
    )
}

/// Inversion is self-inverse: inverting an image twice restores every color
/// channel exactly, and the alpha channel is unchanged both times.
pub proof fn lemma_invert_involutive(data: Seq<u8>)
    ensures
        inverted_data(inverted_data(data)) == data,
{
    assert(inverted_data(inverted_data(data)) =~= data);
}

/// Horizontal flip is self-inverse: flipping an image twice restores the
/// pixel buffer exactly.
pub proof fn lemma_flip_involutive(width: int, height: int, data: Seq<u8>)
    requires
        width >= 0,
        height >= 0,
        data.len() == 4 * width * height,
    ensures
        flipped_data(width, height, flipped_data(width, height, data)) == data,
{
    let once = flipped_data(width, height, data);
    let twice = flipped_data(width, height, once);
    assert forall|n: int| 0 <= n < data.len() implies twice[n] == data[n] by {
        let p = n / 4;
        let c = n % 4;
        let x = p % width;
        let y = p / width;
        vstd::arithmetic::div_mod::lemma_fundamental_div_mod(n, 4);
        vstd::arithmetic::div_mod::lemma_mod_bound(n, 4);
        assert(p < width * height) by (nonlinear_arith)
            requires
                0 <= n < 4 * width * height,
                p == n / 4,
                n == 4 * p + n % 4,
                0 <= n % 4 < 4,
        ;
        vstd::arithmetic::div_mod::lemma_fundamental_div_mod(p, width);
        vstd::arithmetic::div_mod::lemma_mod_bound(p, width);
        assert(0 <= y < height) by (nonlinear_arith)
            requires
                0 <= p < width * height,
                p == width * y + x,
                0 <= x < width,
        ;
        lemma_index_decompose(width, x, y, c);
        let mx = width - 1 - x;
        assert(width - 1 - mx == x);
        lemma_pixel_index(width, height, mx, y, c);
        lemma_pixel_index(width, height, x, y, c);
        let mn = 4 * (y * width + mx) + c;
        lemma_index_decompose(width, mx, y, c);
        assert(twice[n] == once[mn]);
        assert(once[mn] == data[4 * (y * width + x) + c]);
        assert(data[4 * (y * width + x) + c] == data[n]);
    }
    assert(twice =~= data);
}

} // verus!
