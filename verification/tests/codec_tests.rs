use pixel_codec::DeltaSample;
use pixel_codec::Pixel;
use pixel_codec::PixelBuffer;
use pixel_codec::RunToken;
use pixel_codec::delta_compresser;
use pixel_codec::delta_decompresser;
use pixel_codec::render_tokens;
use pixel_codec::rle_compresser;
use pixel_codec::rle_tokenize;

fn px(r: u8, g: u8, b: u8) -> Pixel {
    Pixel { r, g, b }
}

#[test]
fn delta_scenario_two_pixels() {
    let buffer = PixelBuffer { pixels: vec![px(255, 255, 255), px(250, 250, 250)] };
    let deltas = delta_compresser(&buffer);
    assert_eq!(
        deltas,
        vec![
            DeltaSample { d0: 0, d1: 0, d2: 0 },
            DeltaSample { d0: 5, d1: 5, d2: 5 },
        ]
    );
}

#[test]
fn delta_seed_is_worst_case() {
    let buffer = PixelBuffer { pixels: vec![px(0, 0, 0)] };
    let deltas = delta_compresser(&buffer);
    assert_eq!(deltas, vec![DeltaSample { d0: 255, d1: 255, d2: 255 }]);
}

#[test]
fn delta_round_trip() {
    let buffer = PixelBuffer {
        pixels: vec![px(0, 100, 0), px(0, 200, 0), px(7, 0, 255), px(7, 0, 255)],
    };
    let deltas = delta_compresser(&buffer);
    let decoded = delta_decompresser(&deltas).expect("the stream of a real buffer decodes");
    assert_eq!(decoded.pixels, buffer.pixels);
}

#[test]
fn delta_decode_rejects_out_of_range() {
    let deltas = vec![DeltaSample { d0: -1, d1: 0, d2: 0 }];
    assert!(delta_decompresser(&deltas).is_none());
}

#[test]
fn rle_single_transition_emits_unit_runs() {
    // The one transition closes the length-1 run of value 0 on channels
    // 1 and 2; the trailing run of value 5 is never flushed.
    let buffer = PixelBuffer { pixels: vec![px(255, 255, 255), px(250, 250, 250)] };
    let bytes = rle_compresser(&buffer);
    assert_eq!(bytes, b"|1*0|1*0".to_vec());
}

#[test]
fn rle_no_output_without_transitions() {
    // A constant delta stream never closes a run, so nothing is emitted.
    let buffer = PixelBuffer { pixels: vec![px(255, 255, 255), px(255, 255, 255)] };
    let bytes = rle_compresser(&buffer);
    assert_eq!(bytes, Vec::<u8>::new());
}

#[test]
fn rle_tokens_interleave_and_drop_final_run() {
    let buffer = PixelBuffer { pixels: vec![px(0, 100, 0), px(0, 200, 0), px(0, 0, 0)] };
    let deltas = delta_compresser(&buffer);
    assert_eq!(
        deltas,
        vec![
            DeltaSample { d0: 255, d1: 155, d2: 255 },
            DeltaSample { d0: 0, d1: -100, d2: 0 },
            DeltaSample { d0: 0, d1: 200, d2: 0 },
        ]
    );
    let tokens = rle_tokenize(&deltas);
    assert_eq!(
        tokens,
        vec![
            RunToken { channel: 1, run_length: 1, value: 155 },
            RunToken { channel: 2, run_length: 1, value: 255 },
            RunToken { channel: 1, run_length: 1, value: -100 },
        ]
    );
    // Re-expanding channel 1's tokens gives its delta values with the
    // final open run (the trailing 200) lost, as the encoder never
    // flushes it.
    let mut expanded: Vec<i16> = Vec::new();
    for t in &tokens {
        if t.channel == 1 {
            for _ in 0..t.run_length {
                expanded.push(t.value);
            }
        }
    }
    assert_eq!(expanded, vec![155, -100]);
}

#[test]
fn rle_bytes_concrete() {
    let buffer = PixelBuffer { pixels: vec![px(0, 100, 0), px(0, 200, 0), px(0, 0, 0)] };
    let bytes = rle_compresser(&buffer);
    assert_eq!(bytes, b"|1*155|1*255|1*-100".to_vec());
}

#[test]
fn rle_counts_long_runs() {
    let mut pixels = vec![px(200, 200, 200)];
    for _ in 0..11 {
        pixels.push(px(0, 0, 0));
    }
    pixels.push(px(1, 1, 1));
    let buffer = PixelBuffer { pixels };
    // Channel deltas: 55, then 200, then ten 0s, then -1 (unflushed).
    let bytes = rle_compresser(&buffer);
    assert_eq!(bytes, b"|1*55|1*55|1*200|1*200|10*0|10*0".to_vec());
}

#[test]
fn render_tokens_negative_value() {
    let tokens = vec![RunToken { channel: 2, run_length: 12, value: -3 }];
    assert_eq!(render_tokens(&tokens), b"|12*-3".to_vec());
}
