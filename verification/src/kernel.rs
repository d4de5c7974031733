//! Mathematical model of the 3x3 weighted blur: the kernel weights, the
//! interior iteration domain, the per-byte result, and the laws that hold
//! of the blurred image.
//!
//! The kernel weights are sixteenths (corners 1, edges 2, center 4, summing
//! to 16), so the weighted average of a 3x3 neighbourhood of byte samples is
//! an exact rational with denominator 16; dividing the integer weighted sum
//! by 16 truncates toward zero, which is the intended narrowing of the
//! averaged sample back to a byte.

use vstd::prelude::*;

verus! {

/// A pixel (y, x) is interior when the whole 3x3 neighbourhood around it
/// lies inside a `w` by `h` image; the one-pixel border ring is excluded.
pub open spec fn is_interior(w: int, h: int, y: int, x: int) -> bool {
    1 <= y <= h - 2 && 1 <= x <= w - 2
}

/// Weighted 3x3 neighbourhood sum, in sixteenths, of channel `c` around the
/// pixel (y, x) of a row-major RGBA buffer `s` with row width `w`.
/// The weights are 1-2-1 / 2-4-2 / 1-2-1.
pub open spec fn weighted_sum(w: int, s: Seq<u8>, y: int, x: int, c: int) -> int {
    s[((y - 1) * w + (x - 1)) * 4 + c] + 2 * s[((y - 1) * w + x) * 4 + c]
        + s[((y - 1) * w + (x + 1)) * 4 + c] + 2 * s[(y * w + (x - 1)) * 4 + c]
        + 4 * s[(y * w + x) * 4 + c] + 2 * s[(y * w + (x + 1)) * 4 + c]
        + s[((y + 1) * w + (x - 1)) * 4 + c] + 2 * s[((y + 1) * w + x) * 4 + c]
        + s[((y + 1) * w + (x + 1)) * 4 + c]
}

/// Byte `i` of the blurred image: an interior R, G or B sample becomes the
/// truncated weighted average of its neighbourhood; the border ring, the
/// alpha channel (offset 3 modulo 4) and any byte past the pixel grid keep
/// their original value.
pub open spec fn blur_byte(w: int, h: int, s: Seq<u8>, i: int) -> u8 {
    if w < 3 || h < 3 {
        s[i]
    } else {
        let p = i / 4;
        let c = i % 4;
        let x = p % w;
        let y = p / w;
        if c == 3 || !is_interior(w, h, y, x) {
            s[i]
        } else {
            (weighted_sum(w, s, y, x, c) / 16) as u8
        }
    }
}

/// The blurred image as a whole: the same length, every byte as `blur_byte`.
pub open spec fn blur_spec(w: int, h: int, s: Seq<u8>) -> Seq<u8> {
    Seq::new(s.len(), |i: int| blur_byte(w, h, s, i))
}

/// Law: the reference pass and the vectorization-friendly pass agree.  Each
/// blur operation's contract equates its output with `blur_spec` of its
/// input, so two outputs computed from the same input are byte-identical.
pub proof fn lemma_blur_equivalence(
    w: int,
    h: int,
    s: Seq<u8>,
    out_reference: Seq<u8>,
    out_fast: Seq<u8>,
)
    requires
        out_reference == blur_spec(w, h, s),
        out_fast == blur_spec(w, h, s),
    ensures
        out_reference == out_fast,
{
}

/// Law: a byte of a pixel on the outermost ring is unchanged by the blur.
pub proof fn lemma_border_unchanged(w: int, h: int, s: Seq<u8>, i: int)
    requires
        1 <= w,
        1 <= h,
        0 <= i < s.len(),
        ({
            let x = (i / 4) % w;
            let y = (i / 4) / w;
            y == 0 || y == h - 1 || x == 0 || x == w - 1
        }),
    ensures
        blur_spec(w, h, s)[i] == s[i],
{
}

/// Law: an alpha sample (byte offset 3 modulo 4) is unchanged by the blur.
pub proof fn lemma_alpha_unchanged(w: int, h: int, s: Seq<u8>, i: int)
    requires
        0 <= i < s.len(),
        i % 4 == 3,
    ensures
        blur_spec(w, h, s)[i] == s[i],
{
}

/// The order in which both blur passes write the image: byte `i` has been
/// written already exactly when its pixel is interior, its channel is a
/// colour channel, and its row-major pixel-then-channel position (py, px, ch)
/// comes before the scan position (y, x, c).
pub(crate) open spec fn done_upto(w: int, h: int, y: int, x: int, c: int, i: int) -> bool {
    let p = i / 4;
    let ch = i % 4;
    let px = p % w;
    let py = p / w;
    ch < 3 && is_interior(w, h, py, px) && (py < y || (py == y && (px < x || (px == x
        && ch < c))))
}

/// Bounds of the flattened index of pixel (py, px) and of its byte offsets.
pub(crate) proof fn lemma_flat_index_bounds(w: int, h: int, py: int, px: int)
    by (nonlinear_arith)
    requires
        1 <= w,
        1 <= h,
        0 <= py < h,
        0 <= px < w,
    ensures
        0 <= py * w + px,
        py * w + px < w * h,
        0 <= (py * w + px) * 4,
        (py * w + px) * 4 + 3 < w * h * 4,
{
}

/// Recovers the pixel coordinates and the channel from a flattened byte
/// index built as (py * w + px) * 4 + ch.
pub(crate) proof fn lemma_coords(w: int, py: int, px: int, ch: int)
    requires
        1 <= w,
        0 <= py,
        0 <= px < w,
        0 <= ch < 4,
    ensures
        ((py * w + px) * 4 + ch) / 4 == py * w + px,
        ((py * w + px) * 4 + ch) % 4 == ch,
        (py * w + px) / w == py,
        (py * w + px) % w == px,
{
    vstd::arithmetic::div_mod::lemma_fundamental_div_mod_converse(
        (py * w + px) * 4 + ch,
        4,
        py * w + px,
        ch,
    );
    vstd::arithmetic::div_mod::lemma_fundamental_div_mod_converse(py * w + px, w, py, px);
}

/// Writing the blurred value of channel `c` of the interior pixel (y, x)
/// advances the scan position by one channel.
pub(crate) proof fn lemma_advance_channel(
    w: int,
    h: int,
    s: Seq<u8>,
    pre: Seq<u8>,
    y: int,
    x: int,
    c: int,
    v: u8,
)
    requires
        3 <= w,
        3 <= h,
        s.len() >= w * h * 4,
        pre.len() == s.len(),
        is_interior(w, h, y, x),
        0 <= c < 3,
        forall|i: int|
            0 <= i < s.len() ==> pre[i] == (if done_upto(w, h, y, x, c, i) {
                blur_byte(w, h, s, i)
            } else {
                s[i]
            }),
        v == blur_byte(w, h, s, (y * w + x) * 4 + c),
    ensures
        forall|i: int|
            0 <= i < s.len() ==> pre.update((y * w + x) * 4 + c, v)[i] == (if done_upto(
                w,
                h,
                y,
                x,
                c + 1,
                i,
            ) {
                blur_byte(w, h, s, i)
            } else {
                s[i]
            }),
{
    let t = (y * w + x) * 4 + c;
    lemma_flat_index_bounds(w, h, y, x);
    lemma_coords(w, y, x, c);
    assert forall|i: int| 0 <= i < s.len() implies pre.update(t, v)[i] == (if done_upto(
        w,
        h,
        y,
        x,
        c + 1,
        i,
    ) {
        blur_byte(w, h, s, i)
    } else {
        s[i]
    }) by {
        vstd::arithmetic::div_mod::lemma_fundamental_div_mod(i, 4);
        vstd::arithmetic::div_mod::lemma_fundamental_div_mod(i / 4, w);
        vstd::arithmetic::mul::lemma_mul_is_commutative(w, (i / 4) / w);
    }
}

/// After the last channel of a pixel, the scan position moves to the next
/// pixel of the row.
pub(crate) proof fn lemma_next_pixel(w: int, h: int, y: int, x: int)
    requires
        3 <= w,
        3 <= h,
        1 <= y <= h - 2,
        1 <= x <= w - 2,
    ensures
        forall|i: int|
            #![trigger done_upto(w, h, y, x, 3, i)]
            #![trigger done_upto(w, h, y, x + 1, 0, i)]
            done_upto(w, h, y, x, 3, i) == done_upto(w, h, y, x + 1, 0, i),
{
}

/// After the last interior pixel of a row, the scan position moves to the
/// first interior pixel of the next row.
pub(crate) proof fn lemma_next_row(w: int, h: int, y: int)
    requires
        3 <= w,
        3 <= h,
        1 <= y <= h - 2,
    ensures
        forall|i: int|
            #![trigger done_upto(w, h, y, w - 1, 0, i)]
            #![trigger done_upto(w, h, y + 1, 1, 0, i)]
            done_upto(w, h, y, w - 1, 0, i) == done_upto(w, h, y + 1, 1, 0, i),
{
}

/// Before the first interior pixel nothing has been written yet.
pub(crate) proof fn lemma_scan_start(w: int, h: int)
    requires
        3 <= w,
        3 <= h,
    ensures
        forall|i: int| !(#[trigger] done_upto(w, h, 1, 1, 0, i)),
{
}

/// Once the scan position passes the last interior row, every byte holds its
/// blurred value, so the buffer as a whole equals `blur_spec`.
pub(crate) proof fn lemma_scan_end(w: int, h: int, s: Seq<u8>, d: Seq<u8>)
    requires
        3 <= w,
        3 <= h,
        d.len() == s.len(),
        forall|i: int|
            0 <= i < s.len() ==> d[i] == (if done_upto(w, h, h - 1, 1, 0, i) {
                blur_byte(w, h, s, i)
            } else {
                s[i]
            }),
    ensures
        d == blur_spec(w, h, s),
{
    assert(d =~= blur_spec(w, h, s));
}

/// Law: an image without interior pixels (width or height under 3) is
/// unchanged as a whole by the blur.
pub proof fn lemma_no_interior_identity(w: int, h: int, s: Seq<u8>)
    requires
        w < 3 || h < 3,
    ensures
        blur_spec(w, h, s) == s,
{
    assert(blur_spec(w, h, s) =~= s);
}

} // verus!
