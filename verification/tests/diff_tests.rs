use pixel_codec::DiffStats;
use pixel_codec::Pixel;
use pixel_codec::PixelBuffer;
use pixel_codec::RgbColors;
use pixel_codec::remove_color;
use pixel_codec::wrap_sub;

fn px(r: u8, g: u8, b: u8) -> Pixel {
    Pixel { r, g, b }
}

#[test]
fn wrapping_subtraction() {
    assert_eq!(wrap_sub(10, 20), 246);
    assert_eq!(wrap_sub(20, 10), 10);
    assert_eq!(wrap_sub(0, 255), 1);
    assert_eq!(wrap_sub(255, 255), 0);
    assert_eq!(wrap_sub(0, 1), 255);
}

#[test]
fn remove_color_all_stats() {
    let mut primary = PixelBuffer { pixels: vec![px(255, 255, 255), px(250, 250, 250)] };
    let reference = PixelBuffer { pixels: vec![px(250, 250, 250), px(255, 255, 255)] };
    let stats = remove_color(&mut primary, &reference, RgbColors::All);
    // First pixel: differences of +5, squared 25 per channel; channels
    // become 5; lost gains (255 - 5) per channel.
    // Second pixel: differences of -5, squared 25 per channel; channels
    // wrap to 251; lost gains (250 - 251) per channel.
    assert_eq!(primary.pixels, vec![px(5, 5, 5), px(251, 251, 251)]);
    assert_eq!(stats, DiffStats { mse: (150) / 2, lost: 750 - 3, pixel_count: 2 });
}

#[test]
fn remove_color_red_zeroes_green_blue() {
    let mut primary = PixelBuffer { pixels: vec![px(10, 200, 30), px(99, 1, 255)] };
    let reference = PixelBuffer { pixels: vec![px(20, 7, 7), px(9, 7, 7)] };
    let stats = remove_color(&mut primary, &reference, RgbColors::Red);
    assert_eq!(primary.pixels, vec![px(246, 0, 0), px(90, 0, 0)]);
    // Squared differences on red only: (10-20)^2 + (99-9)^2.
    assert_eq!(stats.mse, (100 + 8100) / 2);
    // Lost on red only: (10 - 246) + (99 - 90).
    assert_eq!(stats.lost, -236 + 9);
    assert_eq!(stats.pixel_count, 2);
}

#[test]
fn remove_color_green_selected_channel() {
    let mut primary = PixelBuffer { pixels: vec![px(50, 60, 70)] };
    let reference = PixelBuffer { pixels: vec![px(1, 2, 3)] };
    let stats = remove_color(&mut primary, &reference, RgbColors::Green);
    assert_eq!(primary.pixels, vec![px(0, 58, 0)]);
    assert_eq!(stats, DiffStats { mse: 58 * 58, lost: 2, pixel_count: 1 });
}

#[test]
fn remove_color_identical_buffers_zero_mse() {
    let mut primary = PixelBuffer { pixels: vec![px(1, 2, 3), px(4, 5, 6)] };
    let reference = PixelBuffer { pixels: vec![px(1, 2, 3), px(4, 5, 6)] };
    let stats = remove_color(&mut primary, &reference, RgbColors::All);
    assert_eq!(stats.mse, 0);
    // Every channel wraps to zero, so the accumulated lost magnitude is
    // the sum of all original channel values.
    assert_eq!(primary.pixels, vec![px(0, 0, 0), px(0, 0, 0)]);
    assert_eq!(stats.lost, 1 + 2 + 3 + 4 + 5 + 6);
}

#[test]
fn remove_color_truncates_to_shorter_buffer() {
    let mut primary = PixelBuffer { pixels: vec![px(9, 9, 9), px(8, 8, 8), px(7, 7, 7)] };
    let reference = PixelBuffer { pixels: vec![px(9, 9, 9), px(8, 8, 8)] };
    let stats = remove_color(&mut primary, &reference, RgbColors::All);
    assert_eq!(stats.pixel_count, 2);
    assert_eq!(stats.mse, 0);
    // The pixel past the shorter buffer is left untouched.
    assert_eq!(primary.pixels, vec![px(0, 0, 0), px(0, 0, 0), px(7, 7, 7)]);
}
