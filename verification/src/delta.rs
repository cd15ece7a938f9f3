use vstd::prelude::*;

use crate::pixel::Pixel;
use crate::pixel::PixelBuffer;
use crate::pixel::pixel_channel;

verus! {

/// One sample of the delta stream: the per-channel difference
/// `predictor - actual`, each in `[-255, 255]`.
#[derive(Clone, Copy, PartialEq, Eq, Structural, Debug)]
pub struct DeltaSample {
    pub d0: i16,
    pub d1: i16,
    pub d2: i16,
}

/// The value of channel `c` of sample `d`.
pub open spec fn delta_channel(d: DeltaSample, c: int) -> i16 {
    if c == 0 {
        d.d0
    } else if c == 1 {
        d.d1
    } else {
        d.d2
    }
}

/// The predictor for pixel `i` of `s` on channel `c`: the fixed seed 255
/// for the first pixel, and the actual previous pixel afterwards.
pub open spec fn predictor(s: Seq<Pixel>, i: int, c: int) -> int
    recommends
        0 <= i < s.len(),
{
    if i == 0 {
        255
    } else {
        pixel_channel(s[i - 1], c) as int
    }
}

/// The delta emitted for pixel `i` of `s` on channel `c`.
pub open spec fn delta_value(s: Seq<Pixel>, i: int, c: int) -> int
    recommends
        0 <= i < s.len(),
{
    predictor(s, i, c) - pixel_channel(s[i], c) as int
}

/// The delta stream of a pixel sequence: one sample per pixel, in order.
pub open spec fn delta_encode(s: Seq<Pixel>) -> Seq<DeltaSample> {
    Seq::new(
        s.len(),
        |i: int|
            DeltaSample {
                d0: delta_value(s, i, 0) as i16,
                d1: delta_value(s, i, 1) as i16,
                d2: delta_value(s, i, 2) as i16,
            },
    )
}

/// The value channel `c` of pixel `i` decodes to: start from the seed 255
/// and subtract each delta in turn.
pub open spec fn decoded_channel(d: Seq<DeltaSample>, c: int, i: int) -> int
    recommends
        0 <= i < d.len(),
    decreases i,
{
    if i <= 0 {
        255 - delta_channel(d[0], c) as int
    } else {
        decoded_channel(d, c, i - 1) - delta_channel(d[i], c) as int
    }
}

/// A delta stream decodes cleanly when every reconstructed channel value
/// is an 8-bit magnitude.
pub open spec fn delta_decodable(d: Seq<DeltaSample>) -> bool {
    forall|c: int, i: int|
        0 <= c < 3 && 0 <= i < d.len() ==> 0 <= #[trigger] decoded_channel(d, c, i) <= 255
}

/// The pixel sequence a decodable delta stream reconstructs.
pub open spec fn delta_decode(d: Seq<DeltaSample>) -> Seq<Pixel>
    recommends
        delta_decodable(d),
{
    Seq::new(
        d.len(),
        |i: int|
            Pixel {
                r: decoded_channel(d, 0, i) as u8,
                g: decoded_channel(d, 1, i) as u8,
                b: decoded_channel(d, 2, i) as u8,
            },
    )
}

/// Convert a pixel buffer into its delta stream.
pub fn delta_compresser(buffer: &PixelBuffer) -> (r: Vec<DeltaSample>)
    ensures
        r@ == delta_encode(buffer@),
{
    let n = buffer.pixels.len();
    let mut out: Vec<DeltaSample> = Vec::new();
    let mut prev = Pixel { r: 255, g: 255, b: 255 };
    let mut i: usize = 0;
    while i < n
        invariant
            n == buffer@.len(),
            0 <= i <= n,
            out@.len() == i,
            forall|j: int| 0 <= j < i ==> out@[j] == delta_encode(buffer@)[j],
            prev == (if i == 0 {
                Pixel { r: 255, g: 255, b: 255 }
            } else {
                buffer@[i - 1]
            }),
        decreases n - i,
    {
        let p = buffer.pixels[i];
        let sample = DeltaSample {
            d0: prev.r as i16 - p.r as i16,
            d1: prev.g as i16 - p.g as i16,
            d2: prev.b as i16 - p.b as i16,
        };
        assert(sample == delta_encode(buffer@)[i as int]);
        out.push(sample);
        prev = p;
        i = i + 1;
    }
    assert(out@ =~= delta_encode(buffer@));
    out
}

/// Reconstruct the pixel buffer a delta stream stands for, or `None` when
/// some reconstructed channel value falls outside `[0, 255]`.
pub fn delta_decompresser(deltas: &Vec<DeltaSample>) -> (r: Option<PixelBuffer>)
    ensures
        delta_decodable(deltas@) ==> (r matches Some(b) && b@ == delta_decode(deltas@)),
        !delta_decodable(deltas@) ==> r is None,
{
    let n = deltas.len();
    let mut out: Vec<Pixel> = Vec::new();
    let mut p0: i32 = 255;
    let mut p1: i32 = 255;
    let mut p2: i32 = 255;
    let mut i: usize = 0;
    while i < n
        invariant
            n == deltas@.len(),
            0 <= i <= n,
            out@.len() == i,
            forall|c: int, j: int|
                0 <= c < 3 && 0 <= j < i ==> 0 <= #[trigger] decoded_channel(deltas@, c, j) <= 255,
            forall|j: int| 0 <= j < i ==> out@[j] == delta_decode(deltas@)[j],
            p0 == (if i == 0 {
                255int
            } else {
                decoded_channel(deltas@, 0, i - 1)
            }),
            p1 == (if i == 0 {
                255int
            } else {
                decoded_channel(deltas@, 1, i - 1)
            }),
            p2 == (if i == 0 {
                255int
            } else {
                decoded_channel(deltas@, 2, i - 1)
            }),
        decreases n - i,
    {
        let d = deltas[i];
        let v0: i32 = p0 - d.d0 as i32;
        let v1: i32 = p1 - d.d1 as i32;
        let v2: i32 = p2 - d.d2 as i32;
        assert(v0 == decoded_channel(deltas@, 0, i as int));
        assert(v1 == decoded_channel(deltas@, 1, i as int));
        assert(v2 == decoded_channel(deltas@, 2, i as int));
        if v0 < 0 || v0 > 255 || v1 < 0 || v1 > 255 || v2 < 0 || v2 > 255 {
            assert(!delta_decodable(deltas@));
            return None;
        }
        out.push(Pixel { r: v0 as u8, g: v1 as u8, b: v2 as u8 });
        p0 = v0;
        p1 = v1;
        p2 = v2;
        i = i + 1;
    }
    assert(delta_decodable(deltas@));
    proof {
        assert(out@ =~= delta_decode(deltas@));
    }
    Some(PixelBuffer { pixels: out })
}

proof fn lemma_decode_of_encode(s: Seq<Pixel>, c: int, i: int)
    requires
        0 <= c < 3,
        0 <= i < s.len(),
    ensures
        decoded_channel(delta_encode(s), c, i) == pixel_channel(s[i], c) as int,
    decreases i,
{
    if i > 0 {
        lemma_decode_of_encode(s, c, i - 1);
    }
}

/// Delta invertibility: decoding the delta stream of any pixel sequence,
/// with the same seed and running-predictor rule, reconstructs the
/// sequence exactly.
pub proof fn lemma_delta_invertible(s: Seq<Pixel>)
    ensures
        delta_decodable(delta_encode(s)),
        delta_decode(delta_encode(s)) == s,
{
    let d = delta_encode(s);
    assert forall|c: int, i: int| 0 <= c < 3 && 0 <= i < d.len() implies 0 <= #[trigger] decoded_channel(
        d,
        c,
        i,
    ) <= 255 by {
        lemma_decode_of_encode(s, c, i);
    };
    assert forall|i: int| 0 <= i < d.len() implies delta_decode(d)[i] == s[i] by {
        lemma_decode_of_encode(s, 0, i);
        lemma_decode_of_encode(s, 1, i);
        lemma_decode_of_encode(s, 2, i);
    };
    assert(delta_decode(d) =~= s);
}

} // verus!
