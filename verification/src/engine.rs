//! The convolution engine: immutable image dimensions together with the two
//! verified blur passes and the uniform grain synthesis.

use vstd::prelude::*;

use crate::kernel::blur_byte;
use crate::kernel::blur_spec;
use crate::kernel::done_upto;
use crate::kernel::lemma_advance_channel;
use crate::kernel::lemma_coords;
use crate::kernel::lemma_flat_index_bounds;
use crate::kernel::lemma_next_pixel;
use crate::kernel::lemma_next_row;
use crate::kernel::lemma_no_interior_identity;
use crate::kernel::lemma_scan_end;
use crate::kernel::lemma_scan_start;
use crate::kernel::weighted_sum;

verus! {

/// Immutable image dimensions; pixel buffers are passed in and out per call.
pub struct EmulationEngine {
    pub width: u32,
    pub height: u32,
}

impl EmulationEngine {
    /// Stores the dimensions verbatim; no validation happens here.  Zero or
    /// oversized dimensions only make the blur passes' interior ranges empty
    /// or trip their buffer-size guard later.
    pub fn new(width: u32, height: u32) -> (engine: EmulationEngine)
        ensures
            engine.width == width,
            engine.height == height,
    {
        EmulationEngine { width, height }
    }

    /// Reference (naive) 3x3 weighted-average blur, mutating `data` in place.
    ///
    /// A buffer shorter than width * height * 4 is left completely untouched
    /// (silent no-op, no error).  Otherwise every interior R, G and B sample
    /// becomes the truncated weighted average of its 3x3 neighbourhood while
    /// the border ring, the alpha channel and any trailing bytes keep their
    /// original values, as `blur_spec` states byte by byte.
    #[verifier::loop_isolation(false)]
    #[verifier::rlimit(100)]
    pub fn apply_blur_naive(&self, data: &mut Vec<u8>)
        ensures
            final(data)@.len() == old(data)@.len(),
            old(data)@.len() < (self.width as int) * (self.height as int) * 4 ==> final(data)@
                == old(data)@,
            old(data)@.len() >= (self.width as int) * (self.height as int) * 4 ==> final(data)@
                == blur_spec(self.width as int, self.height as int, old(data)@),
    {
        let ghost s = data@;
        let ghost wi = self.width as int;
        let ghost hi = self.height as int;
        let w: usize = self.width as usize;
        let h: usize = self.height as usize;

        if w < 3 || h < 3 {
            proof {
                lemma_no_interior_identity(wi, hi, s);
            }
            return;
        }
        proof {
            assert(wi * hi < 0x1_0000_0000_0000_0000) by (nonlinear_arith)
                requires
                    0 <= wi < 0x1_0000_0000,
                    0 <= hi < 0x1_0000_0000,
            ;
        }
        let prod: u64 = (self.width as u64) * (self.height as u64);
        let len: usize = data.len();
        proof {
            vstd::arithmetic::div_mod::lemma_fundamental_div_mod(len as int, 4);
        }
        if (len as u64) / 4 < prod {
            // undersized buffer: silent no-op
            return;
        }
        assert(len as int >= wi * hi * 4);

        // snapshot before mutating: the pass reads neighbours that it would
        // otherwise have overwritten already
        let mut source: Vec<u8> = Vec::new();
        let mut k: usize = 0;
        while k < len
            invariant
                k <= len,
                source@.len() == k as int,
                forall|j: int| 0 <= j < k ==> source@[j] == s[j],
            decreases len - k,
        {
            let b: u8 = data[k];
            source.push(b);
            k += 1;
        }
        proof {
            assert(source@ =~= s);
            lemma_scan_start(wi, hi);
        }

        let mut y: usize = 1;
        while y < h - 1
            invariant
                1 <= y <= h - 1,
                data@.len() == s.len(),
                forall|i: int|
                    0 <= i < s.len() ==> data@[i] == (if done_upto(wi, hi, y as int, 1, 0, i) {
                        blur_byte(wi, hi, s, i)
                    } else {
                        s[i]
                    }),
            decreases h - 1 - y,
        {
            let mut x: usize = 1;
            while x < w - 1
                invariant
                    1 <= x <= w - 1,
                    data@.len() == s.len(),
                    forall|i: int|
                        0 <= i < s.len() ==> data@[i] == (if done_upto(
                            wi,
                            hi,
                            y as int,
                            x as int,
                            0,
                            i,
                        ) {
                            blur_byte(wi, hi, s, i)
                        } else {
                            s[i]
                        }),
                decreases w - 1 - x,
            {
                let ghost yi = y as int;
                let ghost xi = x as int;
                proof {
                    lemma_flat_index_bounds(wi, hi, yi - 1, xi - 1);
                    lemma_flat_index_bounds(wi, hi, yi - 1, xi);
                    lemma_flat_index_bounds(wi, hi, yi - 1, xi + 1);
                    lemma_flat_index_bounds(wi, hi, yi, xi - 1);
                    lemma_flat_index_bounds(wi, hi, yi, xi);
                    lemma_flat_index_bounds(wi, hi, yi, xi + 1);
                    lemma_flat_index_bounds(wi, hi, yi + 1, xi - 1);
                    lemma_flat_index_bounds(wi, hi, yi + 1, xi);
                    lemma_flat_index_bounds(wi, hi, yi + 1, xi + 1);
                }
                let i00: usize = ((y - 1) * w + (x - 1)) * 4;
                let i01: usize = ((y - 1) * w + x) * 4;
                let i02: usize = ((y - 1) * w + (x + 1)) * 4;
                let i10: usize = (y * w + (x - 1)) * 4;
                let i11: usize = (y * w + x) * 4;
                let i12: usize = (y * w + (x + 1)) * 4;
                let i20: usize = ((y + 1) * w + (x - 1)) * 4;
                let i21: usize = ((y + 1) * w + x) * 4;
                let i22: usize = ((y + 1) * w + (x + 1)) * 4;
                let r: u32 = (source[i00] as u32) + 2 * (source[i01] as u32) + (source[i02] as u32)
                    + 2 * (source[i10] as u32) + 4 * (source[i11] as u32) + 2 * (source[i12]
                    as u32) + (source[i20] as u32) + 2 * (source[i21] as u32) + (source[i22]
                    as u32);
                let g: u32 = (source[i00 + 1] as u32) + 2 * (source[i01 + 1] as u32) + (source[i02
                    + 1] as u32) + 2 * (source[i10 + 1] as u32) + 4 * (source[i11 + 1] as u32) + 2
                    * (source[i12 + 1] as u32) + (source[i20 + 1] as u32) + 2 * (source[i21 + 1]
                    as u32) + (source[i22 + 1] as u32);
                let b: u32 = (source[i00 + 2] as u32) + 2 * (source[i01 + 2] as u32) + (source[i02
                    + 2] as u32) + 2 * (source[i10 + 2] as u32) + 4 * (source[i11 + 2] as u32) + 2
                    * (source[i12 + 2] as u32) + (source[i20 + 2] as u32) + 2 * (source[i21 + 2]
                    as u32) + (source[i22 + 2] as u32);
                let v0: u8 = (r / 16) as u8;
                let v1: u8 = (g / 16) as u8;
                let v2: u8 = (b / 16) as u8;
                proof {
                    lemma_coords(wi, yi, xi, 0);
                    lemma_coords(wi, yi, xi, 1);
                    lemma_coords(wi, yi, xi, 2);
                    assert(r as int == weighted_sum(wi, s, yi, xi, 0));
                    assert(g as int == weighted_sum(wi, s, yi, xi, 1));
                    assert(b as int == weighted_sum(wi, s, yi, xi, 2));
                }
                let ghost pre0 = data@;
                data[i11] = v0;
                proof {
                    assert(v0 == blur_byte(wi, hi, s, (yi * wi + xi) * 4));
                    lemma_advance_channel(wi, hi, s, pre0, yi, xi, 0, v0);
                }
                let ghost pre1 = data@;
                data[i11 + 1] = v1;
                proof {
                    assert(v1 == blur_byte(wi, hi, s, (yi * wi + xi) * 4 + 1));
                    lemma_advance_channel(wi, hi, s, pre1, yi, xi, 1, v1);
                }
                let ghost pre2 = data@;
                data[i11 + 2] = v2;
                proof {
                    assert(v2 == blur_byte(wi, hi, s, (yi * wi + xi) * 4 + 2));
                    lemma_advance_channel(wi, hi, s, pre2, yi, xi, 2, v2);
                    lemma_next_pixel(wi, hi, yi, xi);
                }
                x += 1;
            }
            proof {
                lemma_next_row(wi, hi, y as int);
            }
            y += 1;
        }
        proof {
            lemma_scan_end(wi, hi, s, data@);
        }
    }

    /// Vectorization-friendly 3x3 blur: the same contract, kernel weights,
    /// strict-interior domain and no-op policy as `apply_blur_naive`, and
    /// byte-identical output.  Structural difference only: per-row byte
    /// offsets are precomputed once per output row, and the three colour
    /// channels form the innermost loop so each 9-tap sum reads contiguous,
    /// predictable strides that an optimizing compiler can vectorize.
    #[verifier::loop_isolation(false)]
    #[verifier::rlimit(100)]
    pub fn apply_blur_simd(&self, data: &mut Vec<u8>)
        ensures
            final(data)@.len() == old(data)@.len(),
            old(data)@.len() < (self.width as int) * (self.height as int) * 4 ==> final(data)@
                == old(data)@,
            old(data)@.len() >= (self.width as int) * (self.height as int) * 4 ==> final(data)@
                == blur_spec(self.width as int, self.height as int, old(data)@),
    {
        let ghost s = data@;
        let ghost wi = self.width as int;
        let ghost hi = self.height as int;
        let w: usize = self.width as usize;
        let h: usize = self.height as usize;

        if w < 3 || h < 3 {
            proof {
                lemma_no_interior_identity(wi, hi, s);
            }
            return;
        }
        proof {
            assert(wi * hi < 0x1_0000_0000_0000_0000) by (nonlinear_arith)
                requires
                    0 <= wi < 0x1_0000_0000,
                    0 <= hi < 0x1_0000_0000,
            ;
        }
        let prod: u64 = (self.width as u64) * (self.height as u64);
        let len: usize = data.len();
        proof {
            vstd::arithmetic::div_mod::lemma_fundamental_div_mod(len as int, 4);
        }
        if (len as u64) / 4 < prod {
            // undersized buffer: silent no-op
            return;
        }
        assert(len as int >= wi * hi * 4);

        // snapshot before mutating, as in the reference pass
        let mut source: Vec<u8> = Vec::new();
        let mut k: usize = 0;
        while k < len
            invariant
                k <= len,
                source@.len() == k as int,
                forall|j: int| 0 <= j < k ==> source@[j] == s[j],
            decreases len - k,
        {
            let b: u8 = data[k];
            source.push(b);
            k += 1;
        }
        proof {
            assert(source@ =~= s);
            lemma_scan_start(wi, hi);
        }

        let mut y: usize = 1;
        while y < h - 1
            invariant
                1 <= y <= h - 1,
                data@.len() == s.len(),
                forall|i: int|
                    0 <= i < s.len() ==> data@[i] == (if done_upto(wi, hi, y as int, 1, 0, i) {
                        blur_byte(wi, hi, s, i)
                    } else {
                        s[i]
                    }),
            decreases h - 1 - y,
        {
            let ghost yi = y as int;
            proof {
                lemma_flat_index_bounds(wi, hi, yi - 1, 0);
                lemma_flat_index_bounds(wi, hi, yi, 0);
                lemma_flat_index_bounds(wi, hi, yi + 1, 0);
            }
            let row_start: usize = y * w * 4;
            let prev_row: usize = (y - 1) * w * 4;
            let next_row: usize = (y + 1) * w * 4;
            let mut x: usize = 1;
            while x < w - 1
                invariant
                    1 <= x <= w - 1,
                    data@.len() == s.len(),
                    forall|i: int|
                        0 <= i < s.len() ==> data@[i] == (if done_upto(
                            wi,
                            hi,
                            y as int,
                            x as int,
                            0,
                            i,
                        ) {
                            blur_byte(wi, hi, s, i)
                        } else {
                            s[i]
                        }),
                decreases w - 1 - x,
            {
                let ghost xi = x as int;
                proof {
                    lemma_flat_index_bounds(wi, hi, yi - 1, xi - 1);
                    lemma_flat_index_bounds(wi, hi, yi - 1, xi);
                    lemma_flat_index_bounds(wi, hi, yi - 1, xi + 1);
                    lemma_flat_index_bounds(wi, hi, yi, xi - 1);
                    lemma_flat_index_bounds(wi, hi, yi, xi);
                    lemma_flat_index_bounds(wi, hi, yi, xi + 1);
                    lemma_flat_index_bounds(wi, hi, yi + 1, xi - 1);
                    lemma_flat_index_bounds(wi, hi, yi + 1, xi);
                    lemma_flat_index_bounds(wi, hi, yi + 1, xi + 1);
                }
                let idx: usize = row_start + x * 4;
                let mut c: usize = 0;
                while c < 3
                    invariant
                        c <= 3,
                        data@.len() == s.len(),
                        forall|i: int|
                            0 <= i < s.len() ==> data@[i] == (if done_upto(
                                wi,
                                hi,
                                y as int,
                                x as int,
                                c as int,
                                i,
                            ) {
                                blur_byte(wi, hi, s, i)
                            } else {
                                s[i]
                            }),
                    decreases 3 - c,
                {
                    let ghost ci = c as int;
                    let sum: u32 = (source[prev_row + (x - 1) * 4 + c] as u32) + 2 * (source[
                        prev_row + x * 4 + c] as u32) + (source[prev_row + (x + 1) * 4 + c] as u32)
                        + 2 * (source[row_start + (x - 1) * 4 + c] as u32) + 4 * (source[row_start
                        + x * 4 + c] as u32) + 2 * (source[row_start + (x + 1) * 4 + c] as u32) + (
                    source[next_row + (x - 1) * 4 + c] as u32) + 2 * (source[next_row + x * 4 + c]
                        as u32) + (source[next_row + (x + 1) * 4 + c] as u32);
                    let v: u8 = (sum / 16) as u8;
                    proof {
                        lemma_coords(wi, yi, xi, ci);
                        assert(sum as int == weighted_sum(wi, s, yi, xi, ci));
                    }
                    let ghost pre = data@;
                    data[idx + c] = v;
                    proof {
                        assert(v == blur_byte(wi, hi, s, (yi * wi + xi) * 4 + ci));
                        lemma_advance_channel(wi, hi, s, pre, yi, xi, ci, v);
                    }
                    c += 1;
                }
                proof {
                    lemma_next_pixel(wi, hi, yi, xi);
                }
                x += 1;
            }
            proof {
                lemma_next_row(wi, hi, y as int);
            }
            y += 1;
        }
        proof {
            lemma_scan_end(wi, hi, s, data@);
        }
    }

    /// Returns the uniform grain buffer: width * height * 4 bytes, every one
    /// equal to `fill`.  The caller derives `fill` from its grain intensity
    /// by truncating intensity * 255 toward zero into a byte.
    #[verifier::loop_isolation(false)]
    pub fn synthesize_grain(&self, fill: u8) -> (out: Vec<u8>)
        requires
            (self.width as int) * (self.height as int) * 4 <= usize::MAX,
        ensures
            out@.len() == (self.width as int) * (self.height as int) * 4,
            forall|i: int| 0 <= i < out@.len() ==> out@[i] == fill,
    {
        proof {
            vstd::arithmetic::mul::lemma_mul_nonnegative(self.width as int, self.height as int);
        }
        let w: usize = self.width as usize;
        let h: usize = self.height as usize;
        let size: usize = w * h * 4;
        let mut out: Vec<u8> = Vec::new();
        let mut i: usize = 0;
        while i < size
            invariant
                i <= size,
                out@.len() == i as int,
                forall|j: int| 0 <= j < i ==> out@[j] == fill,
            decreases size - i,
        {
            out.push(fill);
            i += 1;
        }
        out
    }
}

} // verus!
