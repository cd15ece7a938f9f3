use vstd::prelude::*;

pub mod delta;
pub mod diff;
pub mod pipeline;
pub mod pixel;
pub mod rle;
pub mod strategy;

pub use delta::DeltaSample;
pub use delta::delta_compresser;
pub use delta::delta_decompresser;
pub use diff::DiffStats;
pub use diff::RgbColors;
pub use diff::remove_color;
pub use diff::wrap_sub;
pub use pipeline::TransformOutcome;
pub use pipeline::compression_ratio;
pub use pipeline::transform;
pub use pixel::Pixel;
pub use pixel::PixelBuffer;
pub use rle::RunToken;
pub use rle::rle_compresser;
pub use rle::rle_tokenize;
pub use rle::render_tokens;
pub use strategy::CodecError;
pub use strategy::Strategy;
pub use strategy::empty_compresser;
pub use strategy::lzw_compresser;

verus! {

} // verus!
