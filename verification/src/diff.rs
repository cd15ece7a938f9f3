use vstd::prelude::*;

use vstd::arithmetic::mul::lemma_mul_inequality;
use vstd::math::min;

use crate::pixel::Pixel;
use crate::pixel::PixelBuffer;

verus! {

/// Which channel a diff run works on; `All` processes all three.
#[derive(Clone, Copy, PartialEq, Eq, Structural, Debug)]
pub enum RgbColors {
    Red,
    Green,
    Blue,
    All,
}

/// The statistics of one channel-diff run: truncating mean of the squared
/// per-channel differences, the accumulated signed magnitude the wrapping
/// subtraction destroyed, and the number of pixels processed.
#[derive(Clone, Copy, PartialEq, Eq, Structural, Debug)]
pub struct DiffStats {
    pub mse: i64,
    pub lost: i64,
    pub pixel_count: i64,
}

/// Subtraction modulo 256.
pub open spec fn wrap_sub_spec(a: int, b: int) -> int {
    (a - b) % 256
}

/// Wrapping subtraction: for all 8-bit `a` and `b`, the result is
/// `(a - b) mod 256`, never clamped or saturated.
pub fn wrap_sub(a: u8, b: u8) -> (r: u8)
    ensures
        r as int == wrap_sub_spec(a as int, b as int),
{
    a.wrapping_sub(b)
}

/// The pixel a diff run writes back: every channel replaced by the
/// wrapping difference when `sel` is `All`; otherwise the selected
/// channel replaced and the other two zeroed.
pub open spec fn diff_pixel(p: Pixel, q: Pixel, sel: RgbColors) -> Pixel {
    match sel {
        RgbColors::All => Pixel {
            r: wrap_sub_spec(p.r as int, q.r as int) as u8,
            g: wrap_sub_spec(p.g as int, q.g as int) as u8,
            b: wrap_sub_spec(p.b as int, q.b as int) as u8,
        },
        RgbColors::Red => Pixel { r: wrap_sub_spec(p.r as int, q.r as int) as u8, g: 0, b: 0 },
        RgbColors::Green => Pixel { r: 0, g: wrap_sub_spec(p.g as int, q.g as int) as u8, b: 0 },
        RgbColors::Blue => Pixel { r: 0, g: 0, b: wrap_sub_spec(p.b as int, q.b as int) as u8 },
    }
}

pub open spec fn square(x: int) -> int {
    x * x
}

/// The squared-difference contribution of one pixel pair: all three
/// channels for `All`, only the selected channel otherwise.
pub open spec fn mse_contrib(p: Pixel, q: Pixel, sel: RgbColors) -> int {
    match sel {
        RgbColors::All => square(p.r - q.r) + square(p.g - q.g) + square(p.b - q.b),
        RgbColors::Red => square(p.r - q.r),
        RgbColors::Green => square(p.g - q.g),
        RgbColors::Blue => square(p.b - q.b),
    }
}

/// The lost-magnitude contribution of one pixel pair: original minus
/// written-back value, on each processed channel.
pub open spec fn lost_contrib(p: Pixel, q: Pixel, sel: RgbColors) -> int {
    let o = diff_pixel(p, q, sel);
    match sel {
        RgbColors::All => (p.r - o.r) + (p.g - o.g) + (p.b - o.b),
        RgbColors::Red => p.r - o.r,
        RgbColors::Green => p.g - o.g,
        RgbColors::Blue => p.b - o.b,
    }
}

/// The sum of squared differences over the first `n` pixel pairs.
pub open spec fn mse_sum(p: Seq<Pixel>, q: Seq<Pixel>, sel: RgbColors, n: int) -> int
    recommends
        n <= min(p.len() as int, q.len() as int),
    decreases n,
{
    if n <= 0 {
        0
    } else {
        mse_sum(p, q, sel, n - 1) + mse_contrib(p[n - 1], q[n - 1], sel)
    }
}

/// The sum of lost magnitudes over the first `n` pixel pairs.
pub open spec fn lost_sum(p: Seq<Pixel>, q: Seq<Pixel>, sel: RgbColors, n: int) -> int
    recommends
        n <= min(p.len() as int, q.len() as int),
    decreases n,
{
    if n <= 0 {
        0
    } else {
        lost_sum(p, q, sel, n - 1) + lost_contrib(p[n - 1], q[n - 1], sel)
    }
}

proof fn lemma_contrib_bounds(p: Pixel, q: Pixel, sel: RgbColors)
    ensures
        0 <= mse_contrib(p, q, sel) <= 195075,
        -765 <= lost_contrib(p, q, sel) <= 765,
{
    assert forall|x: int| -255 <= x <= 255 implies 0 <= #[trigger] square(x) <= 65025 by {
        assert(x * x <= 255 * 255 && x * x >= 0) by (nonlinear_arith)
            requires
                -255 <= x <= 255,
        ;
    };
    assert(-255 <= p.r - q.r <= 255);
    assert(-255 <= p.g - q.g <= 255);
    assert(-255 <= p.b - q.b <= 255);
}

proof fn lemma_sum_bounds(p: Seq<Pixel>, q: Seq<Pixel>, sel: RgbColors, n: int)
    requires
        0 <= n <= min(p.len() as int, q.len() as int),
    ensures
        0 <= mse_sum(p, q, sel, n) <= n * 195075,
        -(n * 765) <= lost_sum(p, q, sel, n) <= n * 765,
    decreases n,
{
    if n > 0 {
        lemma_sum_bounds(p, q, sel, n - 1);
        lemma_contrib_bounds(p[n - 1], q[n - 1], sel);
        assert(n * 195075 == (n - 1) * 195075 + 195075) by (nonlinear_arith);
        assert(n * 765 == (n - 1) * 765 + 765) by (nonlinear_arith);
    }
}

/// Diff `primary` against `reference` channel-by-channel, writing the
/// result back into `primary` and returning the accumulated statistics.
/// When the buffers differ in length, only the shorter prefix is
/// processed and the rest of `primary` is left as it was.
pub fn remove_color(primary: &mut PixelBuffer, reference: &PixelBuffer, what: RgbColors) -> (r:
    DiffStats)
    requires
        old(primary)@.len() >= 1,
        reference@.len() >= 1,
        min(old(primary)@.len() as int, reference@.len() as int) <= 0x1_0000_0000,
    ensures
        final(primary)@.len() == old(primary)@.len(),
        forall|i: int|
            0 <= i < min(old(primary)@.len() as int, reference@.len() as int)
                ==> final(primary)@[i] == diff_pixel(old(primary)@[i], reference@[i], what),
        forall|i: int|
            min(old(primary)@.len() as int, reference@.len() as int) <= i < old(primary)@.len()
                ==> final(primary)@[i] == old(primary)@[i],
        r.pixel_count == min(old(primary)@.len() as int, reference@.len() as int),
        r.mse == mse_sum(old(primary)@, reference@, what, r.pixel_count as int)
            / (r.pixel_count as int),
        r.lost == lost_sum(old(primary)@, reference@, what, r.pixel_count as int),
{
    let plen = primary.pixels.len();
    let rlen = reference.pixels.len();
    let n = if plen <= rlen {
        plen
    } else {
        rlen
    };
    let mut mse: i64 = 0;
    let mut lost: i64 = 0;
    let mut i: usize = 0;
    while i < n
        invariant
            n == min(old(primary)@.len() as int, reference@.len() as int),
            n <= 0x1_0000_0000,
            0 <= i <= n,
            primary@.len() == old(primary)@.len(),
            n <= primary@.len(),
            n <= reference@.len(),
            forall|j: int|
                0 <= j < i ==> primary@[j] == diff_pixel(old(primary)@[j], reference@[j], what),
            forall|j: int| i <= j < primary@.len() ==> primary@[j] == old(primary)@[j],
            mse == mse_sum(old(primary)@, reference@, what, i as int),
            lost == lost_sum(old(primary)@, reference@, what, i as int),
            0 <= mse <= (i as int) * 195075,
            -((i as int) * 765) <= lost <= (i as int) * 765,
        decreases n - i,
    {
        let p = primary.pixels[i];
        let q = reference.pixels[i];
        let (np, dm, dl) = diff_one(p, q, what);
        proof {
            lemma_mul_inequality(i as int + 1, 0x1_0000_0000, 195075);
            lemma_mul_inequality(i as int + 1, 0x1_0000_0000, 765);
            assert((i as int + 1) * 195075 == (i as int) * 195075 + 195075) by (nonlinear_arith);
            assert((i as int + 1) * 765 == (i as int) * 765 + 765) by (nonlinear_arith);
        }
        mse = mse + dm;
        lost = lost + dl;
        primary.pixels[i] = np;
        i = i + 1;
    }
    let count: i64 = n as i64;
    mse = mse / count;
    DiffStats { mse, lost, pixel_count: count }
}

/// Diff one pixel pair: the written-back pixel and the two statistic
/// contributions.
fn diff_one(p: Pixel, q: Pixel, what: RgbColors) -> (r: (Pixel, i64, i64))
    ensures
        r.0 == diff_pixel(p, q, what),
        r.1 == mse_contrib(p, q, what),
        r.2 == lost_contrib(p, q, what),
        0 <= r.1 <= 195075,
        -765 <= r.2 <= 765,
{
    proof {
        lemma_contrib_bounds(p, q, what);
    }
    match what {
        RgbColors::All => {
            let vr: i64 = p.r as i64 - q.r as i64;
            let vg: i64 = p.g as i64 - q.g as i64;
            let vb: i64 = p.b as i64 - q.b as i64;
            proof {
                assert(0 <= vr * vr <= 65025 && 0 <= vg * vg <= 65025 && 0 <= vb * vb <= 65025)
                    by (nonlinear_arith)
                    requires
                        -255 <= vr <= 255,
                        -255 <= vg <= 255,
                        -255 <= vb <= 255,
                ;
            }
            let np = Pixel { r: wrap_sub(p.r, q.r), g: wrap_sub(p.g, q.g), b: wrap_sub(p.b, q.b) };
            let dl: i64 = (p.r as i64 - np.r as i64) + (p.g as i64 - np.g as i64) + (p.b as i64
                - np.b as i64);
            (np, vr * vr + vg * vg + vb * vb, dl)
        },
        RgbColors::Red => {
            let v: i64 = p.r as i64 - q.r as i64;
            let np = Pixel { r: wrap_sub(p.r, q.r), g: 0, b: 0 };
            (np, v * v, p.r as i64 - np.r as i64)
        },
        RgbColors::Green => {
            let v: i64 = p.g as i64 - q.g as i64;
            let np = Pixel { r: 0, g: wrap_sub(p.g, q.g), b: 0 };
            (np, v * v, p.g as i64 - np.g as i64)
        },
        RgbColors::Blue => {
            let v: i64 = p.b as i64 - q.b as i64;
            let np = Pixel { r: 0, g: 0, b: wrap_sub(p.b, q.b) };
            (np, v * v, p.b as i64 - np.b as i64)
        },
    }
}

/// Whether `p` and `q` agree on every channel the selector processes.
pub open spec fn pixel_match(p: Pixel, q: Pixel, sel: RgbColors) -> bool {
    match sel {
        RgbColors::All => p == q,
        RgbColors::Red => p.r == q.r,
        RgbColors::Green => p.g == q.g,
        RgbColors::Blue => p.b == q.b,
    }
}

/// Whether the first `n` pixel pairs agree on every processed channel.
pub open spec fn buffers_match(p: Seq<Pixel>, q: Seq<Pixel>, sel: RgbColors, n: int) -> bool {
    forall|i: int| 0 <= i < n ==> pixel_match(#[trigger] p[i], q[i], sel)
}

/// MSE non-negativity: the squared-difference sum of any two buffers is
/// non-negative, and so is its truncating mean.
pub proof fn lemma_mse_nonneg(p: Seq<Pixel>, q: Seq<Pixel>, sel: RgbColors, n: int)
    requires
        0 <= n <= min(p.len() as int, q.len() as int),
    ensures
        mse_sum(p, q, sel, n) >= 0,
        n >= 1 ==> mse_sum(p, q, sel, n) / n >= 0,
{
    lemma_sum_bounds(p, q, sel, n);
}

/// The squared-difference sum is zero exactly when the two buffers are
/// identical on every processed channel; in particular the reported mean
/// is zero whenever they are.
pub proof fn lemma_mse_zero(p: Seq<Pixel>, q: Seq<Pixel>, sel: RgbColors, n: int)
    requires
        0 <= n <= min(p.len() as int, q.len() as int),
    ensures
        mse_sum(p, q, sel, n) == 0 <==> buffers_match(p, q, sel, n),
        buffers_match(p, q, sel, n) && n >= 1 ==> mse_sum(p, q, sel, n) / n == 0,
    decreases n,
{
    assert forall|x: int| -255 <= x <= 255 implies (#[trigger] square(x) == 0 <==> x == 0) && square(
        x,
    ) >= 0 by {
        assert(x * x == 0 <==> x == 0) by (nonlinear_arith);
        assert(x * x >= 0) by (nonlinear_arith);
    };
    if n > 0 {
        lemma_mse_zero(p, q, sel, n - 1);
        lemma_sum_bounds(p, q, sel, n - 1);
        lemma_contrib_bounds(p[n - 1], q[n - 1], sel);
        if mse_sum(p, q, sel, n) == 0 {
            assert(mse_sum(p, q, sel, n - 1) == 0 && mse_contrib(p[n - 1], q[n - 1], sel) == 0);
            assert(pixel_match(p[n - 1], q[n - 1], sel));
        }
        if buffers_match(p, q, sel, n) {
            assert(buffers_match(p, q, sel, n - 1));
            assert(pixel_match(p[n - 1], q[n - 1], sel));
            assert(mse_contrib(p[n - 1], q[n - 1], sel) == 0);
        }
    }
}

/// Selector zeroing: with selector `Red`, the green and blue channels of
/// every output pixel are exactly 0, whatever the inputs were.
pub proof fn lemma_selector_zeroing(p: Pixel, q: Pixel)
    ensures
        diff_pixel(p, q, RgbColors::Red).g == 0,
        diff_pixel(p, q, RgbColors::Red).b == 0,
{
}

} // verus!
