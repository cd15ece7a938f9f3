use vstd::prelude::*;

use crate::pixel::PixelBuffer;
use crate::rle::rle_bytes;
use crate::rle::rle_compresser;

verus! {

/// A compression step that did not cleanly complete.
#[derive(Clone, Copy, PartialEq, Eq, Structural, Debug)]
pub enum CodecError {
    CodecFailure,
}

/// The bytes the LZW coder produces for a given input: a pure function
/// of the input alone (least-significant-bit first, 8-bit initial code
/// width, TIFF early-size switch).
pub uninterp spec fn lzw_of(data: Seq<u8>) -> Seq<u8>;

/// Relies on weezl's `encode::Encoder::with_tiff_size_switch` with
/// `BitOrder::Lsb` and width 8, streamed into a byte vector: the encoding
/// is a deterministic function of the input bytes alone, and a clean
/// completion status means the whole input was consumed and flushed.
/// A non-clean status is handed back as `None`.
#[verifier::external_body]
fn lzw_encode_bytes(data: &Vec<u8>) -> (r: Option<Vec<u8>>)
    ensures
        r matches Some(v) ==> v@ == lzw_of(data@),
{
    let mut out: Vec<u8> = Vec::new();
    let mut enc = weezl::encode::Encoder::with_tiff_size_switch(weezl::BitOrder::Lsb, 8);
    let result = enc.into_stream(&mut out).encode(&data[..]);
    match result.status {
        Ok(()) => Some(out),
        Err(_) => None,
    }
}

/// The identity strategy: the input bytes, unchanged; always succeeds.
pub fn empty_compresser(image: Vec<u8>) -> (r: Result<Vec<u8>, CodecError>)
    ensures
        r matches Ok(v) && v@ == image@,
{
    Ok(image)
}

/// The LZW strategy: the external coder's bytes on clean completion, a
/// codec failure otherwise.
pub fn lzw_compresser(image: Vec<u8>) -> (r: Result<Vec<u8>, CodecError>)
    ensures
        r matches Ok(v) ==> v@ == lzw_of(image@),
        r matches Err(e) ==> e == CodecError::CodecFailure,
{
    match lzw_encode_bytes(&image) {
        Some(v) => Ok(v),
        None => Err(CodecError::CodecFailure),
    }
}

/// A named, swappable compression strategy.
#[derive(Clone, Copy, PartialEq, Eq, Structural, Debug)]
pub enum Strategy {
    /// Returns its input unchanged.
    Identity,
    /// Delegates to the external LZW coder.
    Lzw,
    /// Run-length-over-delta of the fixed reference buffer; the actual
    /// input bytes are ignored, as the reporting harness always did.
    DeltaRle,
}

/// The display name of a strategy.
pub open spec fn strategy_name(s: Strategy) -> Seq<char> {
    match s {
        Strategy::Identity => "standard"@,
        Strategy::Lzw => "LZW"@,
        Strategy::DeltaRle => "RLE"@,
    }
}

impl Strategy {
    /// The strategy's display name, used only for reporting.
    pub fn name(&self) -> (r: &'static str)
        ensures
            r@ == strategy_name(*self),
    {
        match self {
            Strategy::Identity => "standard",
            Strategy::Lzw => "LZW",
            Strategy::DeltaRle => "RLE",
        }
    }

    /// Apply the strategy to `input`. `reference` is the fixed reference
    /// buffer the run-length strategy compresses in place of its input;
    /// the other strategies never read it.
    pub fn apply(&self, input: Vec<u8>, reference: &PixelBuffer) -> (r: Result<
        Vec<u8>,
        CodecError,
    >)
        requires
            *self is DeltaRle ==> reference@.len() >= 1,
        ensures
            *self is Identity ==> (r matches Ok(v) && v@ == input@),
            *self is DeltaRle ==> (r matches Ok(v) && v@ == rle_bytes(reference@)),
            *self is Lzw ==> ((r matches Ok(v) ==> v@ == lzw_of(input@)) && (r matches Err(e)
                ==> e == CodecError::CodecFailure)),
    {
        match self {
            Strategy::Identity => empty_compresser(input),
            Strategy::Lzw => lzw_compresser(input),
            Strategy::DeltaRle => Ok(rle_compresser(reference)),
        }
    }
}

} // verus!
