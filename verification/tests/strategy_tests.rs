use pixel_codec::Pixel;
use pixel_codec::PixelBuffer;
use pixel_codec::Strategy;
use pixel_codec::compression_ratio;
use pixel_codec::empty_compresser;
use pixel_codec::lzw_compresser;
use pixel_codec::transform;

fn px(r: u8, g: u8, b: u8) -> Pixel {
    Pixel { r, g, b }
}

fn one_pixel() -> PixelBuffer {
    PixelBuffer { pixels: vec![px(0, 0, 0)] }
}

#[test]
fn empty_compresser_returns_input() {
    let data = vec![1u8, 2, 3, 4, 5];
    assert_eq!(empty_compresser(data.clone()).unwrap(), data);
}

#[test]
fn lzw_matches_external_coder() {
    let data = b"abababababababab".to_vec();
    let encoded = lzw_compresser(data.clone()).unwrap();
    let mut direct: Vec<u8> = Vec::new();
    let mut enc = weezl::encode::Encoder::with_tiff_size_switch(weezl::BitOrder::Lsb, 8);
    enc.into_stream(&mut direct)
        .encode(&data[..])
        .status
        .expect("the external coder accepts any bytes at width 8");
    assert_eq!(encoded, direct);
    assert_ne!(encoded, data);
}

#[test]
fn strategy_names() {
    assert_eq!(Strategy::Identity.name(), "standard");
    assert_eq!(Strategy::Lzw.name(), "LZW");
    assert_eq!(Strategy::DeltaRle.name(), "RLE");
}

#[test]
fn strategy_apply_dispatches() {
    let reference = PixelBuffer { pixels: vec![px(255, 255, 255), px(250, 250, 250)] };
    let input = vec![9u8, 9, 9];
    assert_eq!(Strategy::Identity.apply(input.clone(), &reference).unwrap(), input);
    // The run-length strategy ignores its input and compresses the fixed
    // reference buffer.
    assert_eq!(Strategy::DeltaRle.apply(input, &reference).unwrap(), b"|1*0|1*0".to_vec());
}

#[test]
fn ratio_folding_expansion() {
    // Baseline 1000, compressed 1200: 100 - 120 = -20 folds to 80.
    assert_eq!(compression_ratio(1000, 1200), 80);
}

#[test]
fn ratio_plain_values() {
    assert_eq!(compression_ratio(1000, 500), 50);
    assert_eq!(compression_ratio(1000, 1000), 0);
    assert_eq!(compression_ratio(1000, 0), 0);
    // Rounding is half away from zero: 1004/1000 rounds to 100percent.
    assert_eq!(compression_ratio(1000, 1004), 0);
    assert_eq!(compression_ratio(1000, 1005), 99);
}

#[test]
fn transform_identity_keeps_bytes() {
    let baseline = vec![7u8; 1000];
    let outcome = transform(baseline.clone(), &Strategy::Identity, &one_pixel()).unwrap();
    assert_eq!(outcome.bytes, baseline);
    assert_eq!(outcome.ratio, 0);
}

#[test]
fn transform_rle_uses_reference_not_input() {
    let baseline = vec![7u8; 10];
    let reference = PixelBuffer { pixels: vec![px(255, 255, 255), px(250, 250, 250)] };
    let outcome = transform(baseline, &Strategy::DeltaRle, &reference).unwrap();
    assert_eq!(outcome.bytes, b"|1*0|1*0".to_vec());
    // 8 bytes against a 10-byte baseline: 100 - 80 = 20.
    assert_eq!(outcome.ratio, 20);
}

#[test]
fn transform_lzw_round_ratio() {
    let baseline = vec![0u8; 1000];
    let outcome = transform(baseline, &Strategy::Lzw, &one_pixel()).unwrap();
    let mut direct: Vec<u8> = Vec::new();
    let mut enc = weezl::encode::Encoder::with_tiff_size_switch(weezl::BitOrder::Lsb, 8);
    enc.into_stream(&mut direct)
        .encode(&vec![0u8; 1000][..])
        .status
        .expect("the external coder accepts any bytes at width 8");
    assert_eq!(outcome.bytes, direct);
    assert_eq!(outcome.ratio, compression_ratio(1000, direct.len()));
}
