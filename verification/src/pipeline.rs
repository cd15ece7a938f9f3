use vstd::prelude::*;

use vstd::arithmetic::div_mod::lemma_fundamental_div_mod;
use vstd::arithmetic::div_mod::lemma_mod_multiples_vanish;
use vstd::arithmetic::div_mod::lemma_small_mod;

use crate::pixel::PixelBuffer;
use crate::rle::rle_bytes;
use crate::strategy::CodecError;
use crate::strategy::Strategy;
use crate::strategy::lzw_of;

verus! {

/// The compressed-size percentage, rounded half away from zero:
/// `round(compressed * 100 / baseline)`.
pub open spec fn rounded_percent(baseline: int, compressed: int) -> int
    recommends
        baseline >= 1,
        compressed >= 0,
{
    (compressed * 200 + baseline) / (2 * baseline)
}

/// The reported compression rate: `100 - round(compressed * 100 /
/// baseline)`, folded into `[0, 100)` modulo 100, so that an output that
/// grew reports a positive remainder instead of a negative rate.
pub open spec fn fold_ratio(baseline: int, compressed: int) -> int
    recommends
        baseline >= 1,
        compressed >= 0,
{
    (100 - rounded_percent(baseline, compressed)) % 100
}

/// Compute the folded compression rate of a compressed size against a
/// baseline size.
pub fn compression_ratio(baseline: usize, compressed: usize) -> (r: u8)
    requires
        baseline >= 1,
    ensures
        r as int == fold_ratio(baseline as int, compressed as int),
        r < 100,
{
    let b: u128 = baseline as u128;
    let c: u128 = compressed as u128;
    let rounded: u128 = (c * 200 + b) / (2 * b);
    let m: u128 = rounded % 100;
    let r: u8 = if m == 0 {
        0
    } else {
        (100 - m) as u8
    };
    proof {
        let rd = rounded as int;
        lemma_fundamental_div_mod(rd, 100);
        assert(rd == 100 * (rd / 100) + m);
        assert(100 - rd == 100 * (1 - rd / 100) + (-(m as int)));
        lemma_mod_multiples_vanish(1 - rd / 100, -(m as int), 100);
        assert((100 - rd) % 100 == (-(m as int)) % 100);
        if m == 0 {
            assert((-(m as int)) % 100 == 0) by {
                lemma_small_mod(0nat, 100nat);
            };
        } else {
            lemma_mod_multiples_vanish(1, -(m as int), 100);
            assert((100 - m as int) % 100 == (-(m as int)) % 100);
            lemma_small_mod((100 - m as int) as nat, 100nat);
        }
    }
    r
}

/// The result of one pipeline run: the bytes that were persisted, and the
/// folded compression rate against the uncompressed baseline.
pub struct TransformOutcome {
    pub bytes: Vec<u8>,
    pub ratio: u8,
}

/// Apply a strategy to the baseline container bytes and report the size
/// ratio. `reference` is the fixed reference buffer the run-length
/// strategy reads in place of its input.
pub fn transform(baseline: Vec<u8>, strategy: &Strategy, reference: &PixelBuffer) -> (r: Result<
    TransformOutcome,
    CodecError,
>)
    requires
        baseline@.len() >= 1,
        *strategy is DeltaRle ==> reference@.len() >= 1,
    ensures
        r matches Ok(out) ==> out.ratio as int == fold_ratio(
            baseline@.len() as int,
            out.bytes@.len() as int,
        ),
        *strategy is Identity ==> (r matches Ok(out) && out.bytes@ == baseline@),
        *strategy is DeltaRle ==> (r matches Ok(out) && out.bytes@ == rle_bytes(reference@)),
        *strategy is Lzw ==> ((r matches Ok(out) ==> out.bytes@ == lzw_of(baseline@)) && (
        r matches Err(e) ==> e == CodecError::CodecFailure)),
{
    let baseline_size = baseline.len();
    match strategy.apply(baseline, reference) {
        Ok(bytes) => {
            let ratio = compression_ratio(baseline_size, bytes.len());
            Ok(TransformOutcome { bytes, ratio })
        },
        Err(e) => Err(e),
    }
}

} // verus!
