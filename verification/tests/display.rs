use crow_panel_advance_5::crow_panel::{
    clear_draw, draw_iter_writes, fill_color_count, fill_contiguous_draws, panel_config,
    pixel_write, Area, BitmapDraw, Color565, DrawPixel, DISPLAY_SIZE,
};
use embedded_graphics::pixelcolor::{IntoStorage, Rgb565, RgbColor};

fn px(x: i32, y: i32, r: u8, g: u8, b: u8) -> DrawPixel {
    DrawPixel { x, y, color: Color565 { r, g, b } }
}

#[test]
fn color_raw_value_places_channels() {
    assert_eq!(Color565 { r: 0x1f, g: 0x00, b: 0x0a }.to_raw(), 0b11111_000000_01010u16);
    assert_eq!(Color565 { r: 1, g: 2, b: 3 }.to_raw(), (1 << 11) | (2 << 5) | 3);
}

#[test]
fn color_raw_value_masks_wide_channels() {
    assert_eq!(Color565 { r: 255, g: 0, b: 0 }.to_raw(), 0xF800);
    assert_eq!(Color565 { r: 0, g: 255, b: 0 }.to_raw(), 0x07E0);
    assert_eq!(Color565 { r: 0, g: 0, b: 255 }.to_raw(), 0x001F);
    assert_eq!(Color565 { r: 0x3f, g: 0x7f, b: 0x3f }.to_raw(), 0xFFFF);
}

#[test]
fn color_raw_value_agrees_with_rgb565_constants() {
    let white = Rgb565::WHITE;
    let c = Color565 { r: white.r(), g: white.g(), b: white.b() };
    assert_eq!(c.to_raw(), white.into_storage());
    let cyan = Rgb565::CYAN;
    let c = Color565 { r: cyan.r(), g: cyan.g(), b: cyan.b() };
    assert_eq!(c.to_raw(), 0x07FF);
}

#[test]
fn pixel_write_at_display_edges() {
    let w = pixel_write(&px(0, 0, 31, 0, 0)).unwrap();
    assert_eq!((w.x, w.y, w.raw), (0, 0, 0xF800));
    let w = pixel_write(&px(799, 479, 0, 0, 1)).unwrap();
    assert_eq!((w.x, w.y, w.raw), (799, 479, 1));
    assert!(pixel_write(&px(800, 0, 1, 1, 1)).is_none());
    assert!(pixel_write(&px(0, 480, 1, 1, 1)).is_none());
    assert!(pixel_write(&px(-1, 10, 1, 1, 1)).is_none());
    assert!(pixel_write(&px(10, -1, 1, 1, 1)).is_none());
}

#[test]
fn draw_iter_skips_off_screen_pixels_in_order() {
    let pixels = vec![
        px(5, 6, 0, 0, 1),
        px(-3, 6, 0, 0, 2),
        px(100, 200, 0, 0, 3),
        px(800, 479, 0, 0, 4),
        px(799, 0, 0, 0, 5),
    ];
    let writes = draw_iter_writes(&pixels);
    let got: Vec<(i32, i32, u16)> = writes.iter().map(|w| (w.x, w.y, w.raw)).collect();
    assert_eq!(got, vec![(5, 6, 1), (100, 200, 3), (799, 0, 5)]);
    assert!(draw_iter_writes(&Vec::new()).is_empty());
}

fn window(d: &BitmapDraw) -> (i32, i32, i32, i32) {
    (d.x_start, d.y_start, d.x_end, d.y_end)
}

fn blue(b: u8) -> Color565 {
    Color565 { r: 0, g: 0, b }
}

#[test]
fn fill_inside_the_display_is_one_draw() {
    let area = Area { x: 100, y: 50, width: 3, height: 2 };
    assert_eq!(fill_color_count(&area), 6);
    let colors: Vec<Color565> = (0..6u8).map(blue).collect();
    let draws = fill_contiguous_draws(&area, &colors);
    assert_eq!(draws.len(), 1);
    assert_eq!(window(&draws[0]), (100, 50, 103, 52));
    assert_eq!(draws[0].data, vec![0, 1, 2, 3, 4, 5]);
}

#[test]
fn fill_is_clipped_at_the_right_edge() {
    let area = Area { x: 790, y: 0, width: 20, height: 2 };
    let colors: Vec<Color565> = (0..40u8).map(blue).collect();
    let draws = fill_contiguous_draws(&area, &colors);
    assert_eq!(draws.len(), 1);
    assert_eq!(window(&draws[0]), (790, 0, 800, 2));
    let expected: Vec<u16> = (0..10u16).chain(20..30u16).collect();
    assert_eq!(draws[0].data, expected);
    assert_eq!(fill_color_count(&area), 30);
}

#[test]
fn fill_is_clipped_at_the_left_edge() {
    let area = Area { x: -1, y: 0, width: 2, height: 1 };
    let red = Color565 { r: 31, g: 0, b: 0 };
    let blue = Color565 { r: 0, g: 0, b: 31 };
    let draws = fill_contiguous_draws(&area, &vec![red, blue]);
    assert_eq!(draws.len(), 1);
    assert_eq!(window(&draws[0]), (0, 0, 1, 1));
    assert_eq!(draws[0].data, vec![0x001F]);
}

#[test]
fn fill_is_clipped_at_the_top_and_bottom() {
    let area = Area { x: 0, y: -2, width: 2, height: 3 };
    let colors: Vec<Color565> = (0..6u8).map(blue).collect();
    let draws = fill_contiguous_draws(&area, &colors);
    assert_eq!(draws.len(), 1);
    assert_eq!(window(&draws[0]), (0, 0, 2, 1));
    assert_eq!(draws[0].data, vec![4, 5]);
    let area = Area { x: 10, y: 478, width: 1, height: 5 };
    let draws = fill_contiguous_draws(&area, &colors);
    assert_eq!(draws.len(), 1);
    assert_eq!(window(&draws[0]), (10, 478, 11, 480));
    assert_eq!(draws[0].data, vec![0, 1]);
}

#[test]
fn fill_with_short_stream_draws_whole_rows_then_the_partial_row() {
    let area = Area { x: 10, y: 20, width: 4, height: 3 };
    let colors: Vec<Color565> = (0..6u8).map(blue).collect();
    let draws = fill_contiguous_draws(&area, &colors);
    assert_eq!(draws.len(), 2);
    assert_eq!(window(&draws[0]), (10, 20, 14, 21));
    assert_eq!(draws[0].data, vec![0, 1, 2, 3]);
    assert_eq!(window(&draws[1]), (10, 21, 12, 22));
    assert_eq!(draws[1].data, vec![4, 5]);
}

#[test]
fn fill_with_too_few_colors_for_one_row() {
    let area = Area { x: 100, y: 50, width: 4, height: 4 };
    let colors = vec![Color565 { r: 1, g: 0, b: 0 }, Color565 { r: 0, g: 1, b: 0 }];
    let draws = fill_contiguous_draws(&area, &colors);
    assert_eq!(draws.len(), 1);
    assert_eq!(window(&draws[0]), (100, 50, 102, 51));
    assert_eq!(draws[0].data, vec![0x0800, 0x0020]);
    assert!(fill_contiguous_draws(&area, &Vec::new()).is_empty());
}

#[test]
fn fill_of_wide_area_is_clipped_without_failing() {
    let area = Area { x: 100, y: 0, width: 65500, height: 1 };
    assert_eq!(fill_color_count(&area), 700);
    let colors = vec![Color565 { r: 31, g: 0, b: 0 }; 700];
    let draws = fill_contiguous_draws(&area, &colors);
    assert_eq!(draws.len(), 1);
    assert_eq!(window(&draws[0]), (100, 0, 800, 1));
    assert_eq!(draws[0].data.len(), 700);
    assert!(draws[0].data.iter().all(|&v| v == 0xF800));
}

#[test]
fn fill_missing_the_display_draws_nothing() {
    let colors = vec![blue(1); 10];
    for area in [
        Area { x: 7, y: 9, width: 0, height: 5 },
        Area { x: 800, y: 0, width: 5, height: 5 },
        Area { x: -10, y: 0, width: 10, height: 5 },
        Area { x: 0, y: 480, width: 5, height: 5 },
        Area { x: i32::MIN, y: i32::MIN, width: u32::MAX, height: 3 },
    ] {
        assert!(fill_contiguous_draws(&area, &colors).is_empty());
        assert_eq!(fill_color_count(&area), 0);
    }
}

#[test]
fn fill_color_count_of_far_off_area() {
    let area = Area { x: -5, y: -3, width: 10, height: 10 };
    assert_eq!(fill_color_count(&area), 100);
    let area = Area { x: i32::MIN, y: 0, width: u32::MAX, height: 1 };
    assert_eq!(fill_color_count(&area), 0x8000_0000 + 800);
}

#[test]
fn clear_covers_whole_screen_with_one_value() {
    let d = clear_draw(&Color565 { r: 0, g: 63, b: 0 });
    assert_eq!((d.x_start, d.y_start, d.x_end, d.y_end), (0, 0, 800, 480));
    assert_eq!(d.data.len(), 800 * 480);
    assert!(d.data.iter().all(|&v| v == 0x07E0));
    assert_eq!(DISPLAY_SIZE, (800, 480));
}

#[test]
fn panel_config_for_the_board() {
    let c = panel_config(7);
    assert_eq!(c.clk_src, 7);
    assert_eq!(c.timings.pclk_hz, 16_000_000);
    assert_eq!((c.timings.h_res, c.timings.v_res), (800, 480));
    assert_eq!(c.timings.hsync_pulse_width, 8);
    assert_eq!(c.timings.hsync_back_porch, 20);
    assert_eq!(c.timings.hsync_front_porch, 20);
    assert_eq!(c.timings.vsync_pulse_width, 8);
    assert_eq!(c.timings.vsync_back_porch, 20);
    assert_eq!(c.timings.vsync_front_porch, 20);
    assert_eq!(c.timings.flags._bitfield_1, 1 << 3);
    assert_eq!((c.data_width, c.bits_per_pixel, c.num_fbs), (16, 16, 2));
    assert_eq!(c.bounce_buffer_size_px, 8000);
    assert_eq!((c.sram_trans_align, c.psram_trans_align), (8, 64));
    assert_eq!((c.hsync_gpio_num, c.vsync_gpio_num, c.de_gpio_num, c.pclk_gpio_num), (40, 41, 42, 39));
    assert_eq!(c.disp_gpio_num, -1);
    assert_eq!(c.data_gpio_nums, [21, 47, 48, 45, 38, 9, 10, 11, 12, 13, 14, 7, 17, 18, 3, 46]);
    assert_eq!(c.flags._bitfield_1, (1 << 2) | (1 << 3));
}

#[test]
fn fill_with_every_needed_color_is_one_draw_over_the_clipped_area() {
    let area = Area { x: -2, y: -1, width: 5, height: 3 };
    let needed = fill_color_count(&area);
    assert_eq!(needed, 15);
    let colors: Vec<Color565> = (0..15u8).map(blue).collect();
    let draws = fill_contiguous_draws(&area, &colors);
    assert_eq!(draws.len(), 1);
    assert_eq!(window(&draws[0]), (0, 0, 3, 2));
    assert_eq!(draws[0].data, vec![7, 8, 9, 12, 13, 14]);
}
