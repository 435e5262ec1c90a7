//! Drawing rules for the 800x480 RGB LCD of the CrowPanel Advance 5.0.
//!
//! The display is driven through `esp_lcd_panel_draw_bitmap`, which copies a
//! buffer of raw RGB565 values into the window `[x_start, x_end) x [y_start, y_end)`.
//! The functions of this module decide which windows are drawn with which data.

use embedded_graphics::pixelcolor::raw::{RawData, RawU16};
use embedded_graphics::pixelcolor::Rgb565;
use vstd::prelude::*;

verus! {

/// Size of the display in pixels: (width, height).
pub const DISPLAY_SIZE: (u16, u16) = (800, 480);

/// The RGB565 raw value of the channels `r`, `g`, `b`: red in bits 11..16,
/// green in bits 5..11, blue in bits 0..5; channel bits beyond the channel's
/// width are dropped.
pub open spec fn raw565(r: u8, g: u8, b: u8) -> u16 {
    ((r % 32) as int * 2048 + (g % 64) as int * 32 + (b % 32) as int) as u16
}

/// The RGB565 layout: the raw value is red (5 bits) times 2048 plus green
/// (6 bits) times 32 plus blue (5 bits), and each channel can be read back
/// from it.
pub proof fn lemma_raw565_layout(r: u8, g: u8, b: u8)
    ensures
        raw565(r, g, b) as int == (r % 32) as int * 2048 + (g % 64) as int * 32 + (b % 32) as int,
        raw565(r, g, b) / 2048 == r % 32,
        (raw565(r, g, b) / 32) % 64 == g % 64,
        raw565(r, g, b) % 32 == b % 32,
{
    let v = (r % 32) as int * 2048 + (g % 64) as int * 32 + (b % 32) as int;
    assert(0 <= v < 65536);
    assert(raw565(r, g, b) as int == v);
}

/// `Rgb565::new(r, g, b)` of embedded-graphics, taken to its raw `u16` with
/// `RawU16::from(..).into_inner()`. The contract claims what the source of
/// embedded-graphics-core shows: `new` masks each channel to its width
/// (5, 6, 5 bits) and places red at bit 11, green at bit 5, blue at bit 0, and
/// the raw value is that storage word unchanged.
#[verifier::external_body]
fn rgb565_into_raw(r: u8, g: u8, b: u8) -> (raw: u16)
    ensures
        raw == raw565(r, g, b),
{
    RawU16::from(Rgb565::new(r, g, b)).into_inner()
}

/// An RGB565 color given by its channels (red and blue 0..=31, green 0..=63).
#[derive(Clone, Copy, Debug)]
pub struct Color565 {
    pub r: u8,
    pub g: u8,
    pub b: u8,
}

impl Color565 {
    /// The raw value that `esp_lcd_panel_draw_bitmap` receives for this color.
    pub fn to_raw(&self) -> (raw: u16)
        ensures
            raw == raw565(self.r, self.g, self.b),
            raw as int == (self.r % 32) as int * 2048 + (self.g % 64) as int * 32 + (self.b
                % 32) as int,
    {
        proof {
            lemma_raw565_layout(self.r, self.g, self.b);
        }
        rgb565_into_raw(self.r, self.g, self.b)
    }
}


/// A pixel handed to the display: its position and color.
#[derive(Clone, Copy, Debug)]
pub struct DrawPixel {
    pub x: i32,
    pub y: i32,
    pub color: Color565,
}

/// One single-pixel draw: the window `[x, x + 1) x [y, y + 1)` receives `raw`.
#[derive(Clone, Copy, Debug)]
pub struct PixelWrite {
    pub x: i32,
    pub y: i32,
    pub raw: u16,
}

/// Whether `(x, y)` lies on the display.
pub open spec fn on_screen(x: int, y: int) -> bool {
    0 <= x < DISPLAY_SIZE.0 && 0 <= y < DISPLAY_SIZE.1
}

/// The write that an on-screen pixel produces.
pub open spec fn write_of(p: DrawPixel) -> PixelWrite {
    PixelWrite { x: p.x, y: p.y, raw: raw565(p.color.r, p.color.g, p.color.b) }
}

/// The writes that drawing `pixels` in order produces: one per on-screen
/// pixel, in the pixels' order; off-screen pixels are skipped.
pub open spec fn visible_writes(pixels: Seq<DrawPixel>) -> Seq<PixelWrite>
    decreases pixels.len(),
{
    if pixels.len() == 0 {
        seq![]
    } else {
        let rest = visible_writes(pixels.drop_last());
        let p = pixels.last();
        if on_screen(p.x as int, p.y as int) {
            rest.push(write_of(p))
        } else {
            rest
        }
    }
}

/// The write for one pixel, or `None` where the pixel lies off the display.
pub fn pixel_write(p: &DrawPixel) -> (w: Option<PixelWrite>)
    ensures
        on_screen(p.x as int, p.y as int) <==> w is Some,
        w matches Some(w) ==> w == write_of(*p),
        (0 <= p.x < 800 && 0 <= p.y < 480) <==> w is Some,
        w matches Some(w) ==> w.x == p.x && w.y == p.y && w.raw as int == (p.color.r % 32) as int
            * 2048 + (p.color.g % 64) as int * 32 + (p.color.b % 32) as int,
{
    if p.x >= 0 && p.x < DISPLAY_SIZE.0 as i32 && p.y >= 0 && p.y < DISPLAY_SIZE.1 as i32 {
        Some(PixelWrite { x: p.x, y: p.y, raw: p.color.to_raw() })
    } else {
        None
    }
}

/// The single-pixel writes with which the display draws `pixels`
/// (the `DrawTarget::draw_iter` of the display).
pub fn draw_iter_writes(pixels: &Vec<DrawPixel>) -> (writes: Vec<PixelWrite>)
    ensures
        writes@ == visible_writes(pixels@),
        writes@ == pixels@.filter(|p: DrawPixel| 0 <= p.x < 800 && 0 <= p.y < 480).map_values(
            |p: DrawPixel|
                PixelWrite {
                    x: p.x,
                    y: p.y,
                    raw: ((p.color.r % 32) as int * 2048 + (p.color.g % 64) as int * 32 + (p.color.b
                        % 32) as int) as u16,
                },
        ),
{
    let mut writes: Vec<PixelWrite> = Vec::new();
    let n = pixels.len();
    for i in 0..n
        invariant
            n == pixels@.len(),
            writes@ == visible_writes(pixels@.take(i as int)),
    {
        assert(pixels@.take(i + 1).drop_last() =~= pixels@.take(i as int));
        match pixel_write(&pixels[i]) {
            Some(w) => writes.push(w),
            None => {},
        }
    }
    assert(pixels@.take(n as int) =~= pixels@);
    proof {
        lemma_visible_writes_filter(pixels@);
    }
    writes
}

/// The raw value a pixel write carries is the RGB565 value of the pixel's own
/// channels, at the pixel's own position.
pub proof fn lemma_write_of_values(p: DrawPixel)
    ensures
        write_of(p).x == p.x,
        write_of(p).y == p.y,
        write_of(p).raw as int == (p.color.r % 32) as int * 2048 + (p.color.g % 64) as int * 32 + (
        p.color.b % 32) as int,
{
    lemma_raw565_layout(p.color.r, p.color.g, p.color.b);
}

/// Drawing pixels writes exactly the pixels that lie on the 800x480 display,
/// each with its own position and RGB565 value, in the pixels' order; every
/// off-screen pixel is skipped on its own, whatever comes before or after it.
pub proof fn lemma_visible_writes_filter(pixels: Seq<DrawPixel>)
    ensures
        visible_writes(pixels) == pixels.filter(|p: DrawPixel| 0 <= p.x < 800 && 0 <= p.y < 480).map_values(
            |p: DrawPixel|
                PixelWrite {
                    x: p.x,
                    y: p.y,
                    raw: ((p.color.r % 32) as int * 2048 + (p.color.g % 64) as int * 32 + (p.color.b
                        % 32) as int) as u16,
                },
        ),
    decreases pixels.len(),
{
    let pred = |p: DrawPixel| 0 <= p.x < 800 && 0 <= p.y < 480;
    let f = |p: DrawPixel|
        PixelWrite {
            x: p.x,
            y: p.y,
            raw: ((p.color.r % 32) as int * 2048 + (p.color.g % 64) as int * 32 + (p.color.b % 32) as int) as u16,
        };
    reveal_with_fuel(Seq::filter, 1);
    if pixels.len() == 0 {
        assert(pixels.filter(pred).map_values(f) =~= Seq::<PixelWrite>::empty());
    } else {
        lemma_visible_writes_filter(pixels.drop_last());
        let last = pixels.last();
        let front = pixels.drop_last().filter(pred);
        if pred(last) {
            assert(front.push(last).map_values(f) =~= front.map_values(f).push(f(last)));
        }
    }
}

/// Every pixel of the input that lies on the display is drawn.
pub proof fn lemma_on_screen_pixel_drawn(pixels: Seq<DrawPixel>, j: int)
    requires
        0 <= j < pixels.len(),
        0 <= pixels[j].x < 800,
        0 <= pixels[j].y < 480,
    ensures
        visible_writes(pixels).contains(
            PixelWrite {
                x: pixels[j].x,
                y: pixels[j].y,
                raw: ((pixels[j].color.r % 32) as int * 2048 + (pixels[j].color.g % 64) as int * 32 + (
                pixels[j].color.b % 32) as int) as u16,
            },
        ),
    decreases pixels.len(),
{
    if j == pixels.len() - 1 {
        assert(visible_writes(pixels).last() == write_of(pixels[j]));
    } else {
        lemma_on_screen_pixel_drawn(pixels.drop_last(), j);
        let rest = visible_writes(pixels.drop_last());
        let k = choose|k: int| 0 <= k < rest.len() && rest[k] == write_of(pixels.drop_last()[j]);
        assert(visible_writes(pixels)[k] == rest[k]);
    }
}

/// Every write of `visible_writes` lies on the display, and there are no more
/// writes than pixels.
pub proof fn lemma_writes_on_screen(pixels: Seq<DrawPixel>)
    ensures
        visible_writes(pixels).len() <= pixels.len(),
        forall|k: int|
            0 <= k < visible_writes(pixels).len() ==> on_screen(
                #[trigger] visible_writes(pixels)[k].x as int,
                visible_writes(pixels)[k].y as int,
            ),
    decreases pixels.len(),
{
    if pixels.len() > 0 {
        lemma_writes_on_screen(pixels.drop_last());
    }
}

/// Where every pixel lies on the display, each one is drawn, in order, with
/// its own position and color.
pub proof fn lemma_all_on_screen_drawn(pixels: Seq<DrawPixel>)
    requires
        forall|k: int| 0 <= k < pixels.len() ==> on_screen(#[trigger] pixels[k].x as int, pixels[k].y as int),
    ensures
        visible_writes(pixels) == pixels.map_values(|p: DrawPixel| write_of(p)),
    decreases pixels.len(),
{
    if pixels.len() > 0 {
        let front = pixels.drop_last();
        assert forall|k: int| 0 <= k < front.len() implies on_screen(#[trigger] front[k].x as int, front[k].y as int) by {
            assert(front[k] == pixels[k]);
        }
        lemma_all_on_screen_drawn(front);
        assert(pixels[pixels.len() - 1] == pixels.last());
        assert(pixels.map_values(|p: DrawPixel| write_of(p)) =~= front.map_values(|p: DrawPixel| write_of(p)).push(write_of(pixels.last())));
    }
}


/// A rectangle of the drawing surface: top-left corner and size.
#[derive(Clone, Copy, Debug)]
pub struct Area {
    pub x: i32,
    pub y: i32,
    pub width: u32,
    pub height: u32,
}

/// One call of `esp_lcd_panel_draw_bitmap`: the window
/// `[x_start, x_end) x [y_start, y_end)` receives `data`, row by row.
#[derive(Debug)]
pub struct BitmapDraw {
    pub x_start: i32,
    pub y_start: i32,
    pub x_end: i32,
    pub y_end: i32,
    pub data: Vec<u16>,
}

/// The raw value of color `c`.
pub open spec fn raw_color(c: Color565) -> u16 {
    raw565(c.r, c.g, c.b)
}

/// The raw value of a color is its RGB565 value: red (5 bits) times 2048 plus
/// green (6 bits) times 32 plus blue (5 bits).
pub proof fn lemma_raw_color_layout()
    ensures
        forall|c: Color565|
            #[trigger] raw_color(c) as int == (c.r % 32) as int * 2048 + (c.g % 64) as int * 32 + (c.b
                % 32) as int,
{
    assert forall|c: Color565|
        #[trigger] raw_color(c) as int == (c.r % 32) as int * 2048 + (c.g % 64) as int * 32 + (c.b
            % 32) as int by {
        lemma_raw565_layout(c.r, c.g, c.b);
    }
}

/// Whether the window of draw `d` holds `(px, py)`.
pub open spec fn in_window(d: BitmapDraw, px: int, py: int) -> bool {
    d.x_start <= px < d.x_end && d.y_start <= py < d.y_end
}

/// The value that draw `d` puts at `(px, py)`: its data are laid out row by
/// row over its window.
pub open spec fn drawn_at(d: BitmapDraw, px: int, py: int) -> u16 {
    d.data@[(py - d.y_start) * (d.x_end - d.x_start) + (px - d.x_start)]
}

/// A draw whose window is not empty and whose data fill the window exactly.
pub open spec fn draw_well_formed(d: BitmapDraw) -> bool {
    &&& d.x_start < d.x_end
    &&& d.y_start < d.y_end
    &&& d.data@.len() == (d.x_end - d.x_start) * (d.y_end - d.y_start)
}

/// First column of `a` on the display.
pub open spec fn fill_x0(a: Area) -> int {
    if a.x > 0 { a.x as int } else { 0 }
}

/// End column (exclusive) of `a` on the display.
pub open spec fn fill_x1(a: Area) -> int {
    if a.x + a.width < DISPLAY_SIZE.0 { a.x + a.width } else { DISPLAY_SIZE.0 as int }
}

/// First row of `a` on the display.
pub open spec fn fill_y0(a: Area) -> int {
    if a.y > 0 { a.y as int } else { 0 }
}

/// End row (exclusive) of `a` on the display.
pub open spec fn fill_y1(a: Area) -> int {
    if a.y + a.height < DISPLAY_SIZE.1 { a.y + a.height } else { DISPLAY_SIZE.1 as int }
}

/// Whether `(px, py)` is a pixel of `a` that lies on the display.
pub open spec fn in_fill(a: Area, px: int, py: int) -> bool {
    fill_x0(a) <= px < fill_x1(a) && fill_y0(a) <= py < fill_y1(a)
}

/// Position, in the color stream of a contiguous fill of `a`, of the color of
/// pixel `(px, py)`: the stream runs over `a` row by row.
pub open spec fn color_index(a: Area, px: int, py: int) -> int {
    (py - a.y) * a.width + (px - a.x)
}

/// Number of colors a contiguous fill of `a` reads at most: up to the color of
/// the last pixel of `a` on the display, or none where `a` misses the display.
pub open spec fn fill_colors_needed(a: Area) -> int {
    if fill_x0(a) < fill_x1(a) && fill_y0(a) < fill_y1(a) {
        color_index(a, fill_x1(a) - 1, fill_y1(a) - 1) + 1
    } else {
        0
    }
}

/// `color_index` split at the first on-screen row and column.
proof fn lemma_index_split(a: Area, x0: int, y0: int, px: int, py: int)
    ensures
        color_index(a, px, py) == ((y0 - a.y) * a.width + (x0 - a.x)) + (py - y0) * a.width + (
        px - x0),
{
    assert((py - a.y) * a.width == (y0 - a.y) * a.width + (py - y0) * a.width) by (nonlinear_arith);
}

/// Every pixel of `a` on the display takes its color from the first
/// `fill_colors_needed(a)` colors.
pub proof fn lemma_fill_reads_needed_colors(a: Area, px: int, py: int)
    requires
        in_fill(a, px, py),
    ensures
        0 <= color_index(a, px, py) < fill_colors_needed(a),
{
    let w = a.width as int;
    assert(0 <= (py - a.y) * w) by (nonlinear_arith)
        requires
            py >= a.y,
            w >= 0,
    ;
    assert((py - a.y) * w + (px - a.x) <= (fill_y1(a) - 1 - a.y) * w + (fill_x1(a) - 1 - a.x))
        by (nonlinear_arith)
        requires
            a.y <= py <= fill_y1(a) - 1,
            px <= fill_x1(a) - 1,
            w >= 0,
    ;
}

/// Number of colors that a contiguous fill of `area` reads from its color
/// source at most (fewer are used where the source runs dry).
pub fn fill_color_count(area: &Area) -> (n: u64)
    ensures
        n == fill_colors_needed(*area),
{
    let w: i128 = area.width as i128;
    let h: i128 = area.height as i128;
    let x0: i128 = if area.x > 0 { area.x as i128 } else { 0 };
    let y0: i128 = if area.y > 0 { area.y as i128 } else { 0 };
    let x1: i128 = if (area.x as i128) + w < DISPLAY_SIZE.0 as i128 { (area.x as i128) + w } else { DISPLAY_SIZE.0 as i128 };
    let y1: i128 = if (area.y as i128) + h < DISPLAY_SIZE.1 as i128 { (area.y as i128) + h } else { DISPLAY_SIZE.1 as i128 };
    if x0 < x1 && y0 < y1 {
        let dy = y1 - 1 - (area.y as i128);
        let dx = x1 - 1 - (area.x as i128);
        assert(0 <= dy * w <= 0x1_0000_0000 * 0x1_0000_0000 - 0x2_0000_0000) by (nonlinear_arith)
            requires
                0 <= dy <= 0x8000_0000 + 479,
                0 <= w <= 0xFFFF_FFFF,
        ;
        (dy * w + dx + 1) as u64
    } else {
        0
    }
}

/// Appends the raw values of `colors[start..start + len]` to `data`.
fn append_raws(colors: &Vec<Color565>, start: usize, len: usize, data: &mut Vec<u16>)
    requires
        start + len <= colors@.len(),
    ensures
        final(data)@.len() == old(data)@.len() + len,
        forall|j: int| 0 <= j < old(data)@.len() ==> final(data)@[j] == old(data)@[j],
        forall|i: int|
            0 <= i < len ==> #[trigger] final(data)@[old(data)@.len() + i] == raw_color(
                colors@[start + i],
            ),
{
    let ghost start_len = data@.len();
    let ghost prior = data@;
    for i in 0..len
        invariant
            start + len <= colors.len(),
            data@.len() == start_len + i,
            start_len == prior.len(),
            forall|j: int| 0 <= j < start_len ==> data@[j] == prior[j],
            forall|k: int| 0 <= k < i ==> #[trigger] data@[start_len + k] == raw_color(colors@[start + k]),
    {
        data.push(colors[start + i].to_raw());
    }
}

/// The value at position `j` of the data of a block of whole rows, `wv`
/// pixels wide, whose first row starts at color `k0` of a stream with rows `w`
/// colors apart.
spec fn block_elem(colors: Seq<Color565>, k0: int, w: int, wv: int, j: int) -> u16 {
    raw_color(colors[k0 + (j / wv) * w + j % wv])
}

/// A row offset of a block of at most 480 rows, whose rows lie `w` colors
/// apart, stays below `480 * 0xFFFF_FFFF`.
proof fn lemma_row_offset_bound(f: int, w: int)
    requires
        0 <= f <= 480,
        0 <= w <= 0xFFFF_FFFF,
    ensures
        0 <= f * w <= 480 * 0xFFFF_FFFF,
{
    assert(0 <= f * w <= 480 * 0xFFFF_FFFF) by (nonlinear_arith)
        requires
            0 <= f <= 480,
            0 <= w <= 0xFFFF_FFFF,
    ;
}

/// Number of rows, of the `rows` rows of an on-screen block `wv` pixels wide
/// whose first row starts at color `k0` and whose rows lie `w` colors apart,
/// that a stream of `n` colors covers whole.
fn full_rows(k0: i128, w: i128, wv: i128, rows: i128, n: i128) -> (f: i128)
    requires
        0 <= k0 <= 0x8000_0000 * 0xFFFF_FFFF + 0x8000_0000,
        0 <= w <= 0xFFFF_FFFF,
        1 <= wv <= 800,
        1 <= rows <= 480,
    ensures
        0 <= f <= rows,
        f > 0 ==> k0 + (f - 1) * w + wv <= n,
        f < rows ==> k0 + f * w + wv > n,
{
    let mut f: i128 = 0;
    while f < rows
        invariant
            0 <= f <= rows <= 480,
            0 <= k0 <= 0x8000_0000 * 0xFFFF_FFFF + 0x8000_0000,
            0 <= w <= 0xFFFF_FFFF,
            1 <= wv <= 800,
            f > 0 ==> k0 + (f - 1) * w + wv <= n,
        decreases rows - f,
    {
        proof {
            lemma_row_offset_bound(f as int, w as int);
        }
        if k0 + f * w + wv > n {
            return f;
        }
        f = f + 1;
    }
    f
}

/// The raw values of `colors[start..start + len]`.
fn row_data(colors: &Vec<Color565>, start: usize, len: usize) -> (data: Vec<u16>)
    requires
        start + len <= colors@.len(),
    ensures
        data@.len() == len,
        forall|i: int| 0 <= i < len ==> #[trigger] data@[i] == raw_color(colors@[start + i]),
{
    let mut data: Vec<u16> = Vec::new();
    append_raws(colors, start, len, &mut data);
    assert forall|i: int| 0 <= i < len implies #[trigger] data@[i] == raw_color(colors@[start + i]) by {
        assert(data@[0 + i] == raw_color(colors@[start + i]));
    }
    data
}

/// The data of the first `f` on-screen rows of a block `wv` pixels wide whose
/// first row starts at color `k0` and whose rows lie `w` colors apart.
fn block_data(colors: &Vec<Color565>, k0: i128, w: i128, wv: i128, f: i128) -> (data: Vec<u16>)
    requires
        1 <= f <= 480,
        0 <= k0,
        0 <= w <= 0xFFFF_FFFF,
        1 <= wv <= w,
        wv <= 800,
        k0 + (f - 1) * w + wv <= colors@.len(),
    ensures
        data@.len() == f * wv,
        forall|j: int|
            0 <= j < data@.len() ==> #[trigger] data@[j] == block_elem(
                colors@,
                k0 as int,
                w as int,
                wv as int,
                j,
            ),
{
    let mut data: Vec<u16> = Vec::new();
    let mut r: i128 = 0;
    let clen = colors.len();
    while r < f
        invariant
            0 <= r <= f <= 480,
            0 <= k0,
            0 <= w <= 0xFFFF_FFFF,
            1 <= wv <= w,
            wv <= 800,
            k0 + (f - 1) * w + wv <= colors@.len(),
            clen == colors@.len(),
            data@.len() == r * wv,
            forall|j: int|
                0 <= j < data@.len() ==> #[trigger] data@[j] == block_elem(
                    colors@,
                    k0 as int,
                    w as int,
                    wv as int,
                    j,
                ),
        decreases f - r,
    {
        assert(0 <= r * w <= (f - 1) * w) by (nonlinear_arith)
            requires
                0 <= r <= f - 1,
                w >= 0,
        ;
        let ghost old_data = data@;
        let start = (k0 + r * w) as usize;
        append_raws(colors, start, wv as usize, &mut data);
        assert((r + 1) * wv == r * wv + wv) by (nonlinear_arith);
        assert forall|j: int| 0 <= j < data@.len() implies #[trigger] data@[j] == block_elem(
            colors@,
            k0 as int,
            w as int,
            wv as int,
            j,
        ) by {
            if j >= old_data.len() {
                let i = j - old_data.len();
                vstd::arithmetic::div_mod::lemma_fundamental_div_mod_converse(
                    j,
                    wv as int,
                    r as int,
                    i,
                );
                assert(data@[old_data.len() + i] == raw_color(colors@[start + i]));
            } else {
                assert(data@[j] == old_data[j]);
            }
        }
        r = r + 1;
    }
    data
}

/// What the construction of a fill's draws yields: the on-screen part of the
/// area spans columns `x0..x1` and rows `y0..y1`, its first row starts at color
/// `k0`, and `f` of its rows are covered whole by the stream.
spec fn fill_built(
    a: Area,
    colors: Seq<Color565>,
    draws: Seq<BitmapDraw>,
    x0: int,
    x1: int,
    y0: int,
    y1: int,
    k0: int,
    f: int,
) -> bool {
    &&& x0 == fill_x0(a)
    &&& x1 == fill_x1(a)
    &&& y0 == fill_y0(a)
    &&& y1 == fill_y1(a)
    &&& x0 < x1
    &&& y0 < y1
    &&& k0 == (y0 - a.y) * a.width + (x0 - a.x)
    &&& 0 <= f <= y1 - y0
    &&& f > 0 ==> k0 + (f - 1) * a.width + (x1 - x0) <= colors.len()
    &&& f < y1 - y0 ==> k0 + f * a.width + (x1 - x0) > colors.len()
    &&& draws.len() == (if f > 0 { 1int } else { 0int }) + (if f < y1 - y0 && k0 + f * a.width
        < colors.len() { 1int } else { 0int })
    &&& f > 0 ==> draws[0].x_start == x0 && draws[0].x_end == x1 && draws[0].y_start == y0
        && draws[0].y_end == y0 + f
    &&& f > 0 ==> draws[0].data@.len() == (x1 - x0) * f
    &&& f > 0 ==> forall|j: int|
        0 <= j < draws[0].data@.len() ==> #[trigger] draws[0].data@[j] == block_elem(
            colors,
            k0,
            a.width as int,
            x1 - x0,
            j,
        )
    &&& f < y1 - y0 && k0 + f * a.width < colors.len() ==> {
        let d = draws[draws.len() - 1];
        &&& d.x_start == x0 && d.x_end == x0 + (colors.len() - (k0 + f * a.width))
        &&& d.y_start == y0 + f && d.y_end == y0 + f + 1
        &&& d.data@.len() == colors.len() - (k0 + f * a.width)
    }
    &&& f < y1 - y0 && k0 + f * a.width < colors.len() ==> forall|i: int|
        0 <= i < colors.len() - (k0 + f * a.width) ==> #[trigger] draws[draws.len()
            - 1].data@[i] == raw_color(colors[k0 + f * a.width + i])
}

/// The draws of a fill whose on-screen part is not empty, with the numbers
/// that describe how they were cut.
fn build_fill_draws(area: &Area, colors: &Vec<Color565>, x0: i128, x1: i128, y0: i128, y1: i128) -> (res: (
    Vec<BitmapDraw>,
    Ghost<int>,
    Ghost<int>,
))
    requires
        x0 == fill_x0(*area),
        x1 == fill_x1(*area),
        y0 == fill_y0(*area),
        y1 == fill_y1(*area),
        x0 < x1,
        y0 < y1,
    ensures
        fill_built(*area, colors@, res.0@, x0 as int, x1 as int, y0 as int, y1 as int, res.1@, res.2@),
{
    let n: i128 = colors.len() as i128;
    let ax: i128 = area.x as i128;
    let ay: i128 = area.y as i128;
    let w: i128 = area.width as i128;
    let mut draws: Vec<BitmapDraw> = Vec::new();
    let wv = x1 - x0;
    let rows = y1 - y0;
    assert(0 <= (y0 - ay) * w <= 0x8000_0000 * 0xFFFF_FFFF) by (nonlinear_arith)
        requires
            0 <= y0 - ay <= 0x8000_0000,
            0 <= w <= 0xFFFF_FFFF,
    ;
    let k0 = (y0 - ay) * w + (x0 - ax);
    assert(n <= usize::MAX);
    let f = full_rows(k0, w, wv, rows, n);
    if f > 0 {
        let data = block_data(colors, k0, w, wv, f);
        assert(f * wv == (x1 - x0) * ((y0 + f) - y0)) by (nonlinear_arith)
            requires
                wv == x1 - x0,
        ;
        draws.push(BitmapDraw {
            x_start: x0 as i32,
            y_start: y0 as i32,
            x_end: x1 as i32,
            y_end: (y0 + f) as i32,
            data,
        });
    }
    if f < rows {
        proof {
            lemma_row_offset_bound(f as int, w as int);
        }
        let kr = k0 + f * w;
        if kr < n {
            let m = n - kr;
            let data = row_data(colors, kr as usize, m as usize);
            draws.push(BitmapDraw {
                x_start: x0 as i32,
                y_start: (y0 + f) as i32,
                x_end: (x0 + m) as i32,
                y_end: (y0 + f + 1) as i32,
                data,
            });
        }
    }
    (draws, Ghost(k0 as int), Ghost(f as int))
}

/// The bitmap draws with which the display fills `area` from `colors`, the
/// colors of `area`'s pixels row by row (the `DrawTarget::fill_contiguous` of
/// the display). The fill is clipped to the display: every draw lies within
/// `area` and the display, and gives each of its pixels the pixel's own color
/// from the stream. Every pixel of `area` on the display whose color the stream
/// holds is drawn; where the stream runs dry, the rows it covers whole come in
/// one draw and the row it ends in comes in a second draw of the covered part.
/// An area that misses the display gets no draw.
pub fn fill_contiguous_draws(area: &Area, colors: &Vec<Color565>) -> (draws: Vec<BitmapDraw>)
    ensures
        draws@.len() <= 2,
        forall|i: int| 0 <= i < draws@.len() ==> draw_well_formed(#[trigger] draws@[i]),
        forall|i: int, px: int, py: int|
            0 <= i < draws@.len() && #[trigger] in_window(draws@[i], px, py) ==> {
                &&& in_fill(*area, px, py)
                &&& 0 <= color_index(*area, px, py) < colors@.len()
                &&& drawn_at(draws@[i], px, py) == raw_color(colors@[color_index(*area, px, py)])
                &&& drawn_at(draws@[i], px, py) as int == (colors@[color_index(*area, px, py)].r % 32)
                    as int * 2048 + (colors@[color_index(*area, px, py)].g % 64) as int * 32 + (
                colors@[color_index(*area, px, py)].b % 32) as int
            },
        forall|px: int, py: int|
            in_fill(*area, px, py) && #[trigger] color_index(*area, px, py) < colors@.len() ==> exists|
                i: int,
            |
                0 <= i < draws@.len() && #[trigger] in_window(draws@[i], px, py),
        draws@.len() == 2 ==> draws@[0].y_end <= draws@[1].y_start,
        fill_x0(*area) < fill_x1(*area) && fill_y0(*area) < fill_y1(*area) && colors@.len()
            >= fill_colors_needed(*area) ==> {
            &&& draws@.len() == 1
            &&& draws@[0].x_start == fill_x0(*area) && draws@[0].x_end == fill_x1(*area)
            &&& draws@[0].y_start == fill_y0(*area) && draws@[0].y_end == fill_y1(*area)
        },
{
    let ax: i128 = area.x as i128;
    let ay: i128 = area.y as i128;
    let w: i128 = area.width as i128;
    let h: i128 = area.height as i128;
    let x0: i128 = if ax > 0 { ax } else { 0 };
    let y0: i128 = if ay > 0 { ay } else { 0 };
    let x1: i128 = if ax + w < 800 { ax + w } else { 800 };
    let y1: i128 = if ay + h < 480 { ay + h } else { 480 };
    if x0 >= x1 || y0 >= y1 {
        let draws: Vec<BitmapDraw> = Vec::new();
        assert forall|px: int, py: int|
            in_fill(*area, px, py) && #[trigger] color_index(*area, px, py) < colors@.len() implies exists|
                i: int,
            |
                0 <= i < draws@.len() && #[trigger] in_window(draws@[i], px, py) by {}
        return draws;
    }
    let (draws, Ghost(k0), Ghost(f)) = build_fill_draws(area, colors, x0, x1, y0, y1);
    proof {
        fill_draws_correct(*area, colors@, draws@, x0 as int, x1 as int, y0 as int, y1 as int, k0, f);
        fill_draws_single(*area, colors@, draws@, x0 as int, x1 as int, y0 as int, y1 as int, k0, f);
        lemma_raw_color_layout();
    }
    draws
}

/// What `fill_contiguous_draws` builds meets its contract.
proof fn fill_draws_correct(
    a: Area,
    colors: Seq<Color565>,
    draws: Seq<BitmapDraw>,
    x0: int,
    x1: int,
    y0: int,
    y1: int,
    k0: int,
    f: int,
)
    requires
        fill_built(a, colors, draws, x0, x1, y0, y1, k0, f),
    ensures
        draws.len() <= 2,
        forall|i: int| 0 <= i < draws.len() ==> draw_well_formed(#[trigger] draws[i]),
        forall|i: int, px: int, py: int|
            0 <= i < draws.len() && #[trigger] in_window(draws[i], px, py) ==> {
                &&& in_fill(a, px, py)
                &&& 0 <= color_index(a, px, py) < colors.len()
                &&& drawn_at(draws[i], px, py) == raw_color(colors[color_index(a, px, py)])
            },
        forall|px: int, py: int|
            in_fill(a, px, py) && #[trigger] color_index(a, px, py) < colors.len() ==> exists|i: int|
                0 <= i < draws.len() && #[trigger] in_window(draws[i], px, py),
        draws.len() == 2 ==> draws[0].y_end <= draws[1].y_start,
{
    let w = a.width as int;
    let wv = x1 - x0;
    let n = colors.len() as int;
    let nb: int = if f > 0 { 1 } else { 0 };
    let kr = k0 + f * w;
    assert(0 <= (y0 - a.y) * w) by (nonlinear_arith)
        requires
            y0 >= a.y,
            w >= 0,
    ;
    assert(0 <= k0);
    assert(wv <= w);
    if f > 0 {
        assert((x1 - x0) * f == (draws[0].x_end - draws[0].x_start) * (draws[0].y_end
            - draws[0].y_start));
    }
    if draws.len() > nb {
        let d = draws[nb];
        assert((d.x_end - d.x_start) * (d.y_end - d.y_start) == d.x_end - d.x_start) by (
        nonlinear_arith)
            requires
                d.y_end - d.y_start == 1,
        ;
    }
    assert forall|i: int, px: int, py: int|
        0 <= i < draws.len() && #[trigger] in_window(draws[i], px, py) implies {
        &&& in_fill(a, px, py)
        &&& 0 <= color_index(a, px, py) < colors.len()
        &&& drawn_at(draws[i], px, py) == raw_color(colors[color_index(a, px, py)])
    } by {
        lemma_index_split(a, x0, y0, px, py);
        let r = py - y0;
        let c = px - x0;
        if f > 0 && i == 0 {
            let d = draws[0];
            let idx = r * wv + c;
            vstd::arithmetic::div_mod::lemma_fundamental_div_mod_converse(idx, wv, r, c);
            assert(idx < f * wv) by (nonlinear_arith)
                requires
                    idx == r * wv + c,
                    0 <= r < f,
                    0 <= c < wv,
            ;
            assert((py - d.y_start) * (d.x_end - d.x_start) + (px - d.x_start) == idx);
            assert(d.data@[idx] == block_elem(colors, k0, w, wv, idx));
            assert(0 <= r * w <= (f - 1) * w) by (nonlinear_arith)
                requires
                    0 <= r <= f - 1,
                    w >= 0,
            ;
        } else {
            let d = draws[i];
            assert(i == nb);
            assert(i == draws.len() - 1);
            assert(r == f);
            assert((py - d.y_start) * (d.x_end - d.x_start) == 0) by (nonlinear_arith)
                requires
                    py - d.y_start == 0,
            ;
            assert(d.data@[c] == raw_color(colors[kr + c]));
            assert(0 <= f * w) by (nonlinear_arith)
                requires
                    0 <= f,
                    w >= 0,
            ;
        }
    }
    assert forall|px: int, py: int|
        in_fill(a, px, py) && #[trigger] color_index(a, px, py) < colors.len() implies exists|i: int|
        0 <= i < draws.len() && #[trigger] in_window(draws[i], px, py) by {
        lemma_index_split(a, x0, y0, px, py);
        let r = py - y0;
        let c = px - x0;
        if r < f {
            assert(in_window(draws[0], px, py));
        } else if r == f {
            assert(in_window(draws[nb], px, py));
        } else {
            assert(r * w >= f * w + w) by (nonlinear_arith)
                requires
                    r >= f + 1,
                    w >= 0,
            ;
            assert(false);
        }
    }
}

/// The bitmap draw with which the display is cleared to `color`: the whole
/// screen, every pixel set to the color's raw value.
pub fn clear_draw(color: &Color565) -> (d: BitmapDraw)
    ensures
        d.x_start == 0,
        d.y_start == 0,
        d.x_end == DISPLAY_SIZE.0,
        d.y_end == DISPLAY_SIZE.1,
        d.data@.len() == DISPLAY_SIZE.0 as int * DISPLAY_SIZE.1 as int,
        forall|k: int| 0 <= k < d.data@.len() ==> d.data@[k] == raw565(color.r, color.g, color.b),
        forall|k: int|
            0 <= k < d.data@.len() ==> d.data@[k] as int == (color.r % 32) as int * 2048 + (color.g
                % 64) as int * 32 + (color.b % 32) as int,
{
    let num_pixels = DISPLAY_SIZE.0 as usize * DISPLAY_SIZE.1 as usize;
    let raw = color.to_raw();
    let mut data: Vec<u16> = Vec::new();
    for i in 0..num_pixels
        invariant
            num_pixels == DISPLAY_SIZE.0 as int * DISPLAY_SIZE.1 as int,
            data@.len() == i,
            raw == raw565(color.r, color.g, color.b),
            forall|k: int| 0 <= k < data@.len() ==> data@[k] == raw,
    {
        data.push(raw);
    }
    proof {
        lemma_raw565_layout(color.r, color.g, color.b);
    }
    BitmapDraw {
        x_start: 0,
        y_start: 0,
        x_end: DISPLAY_SIZE.0 as i32,
        y_end: DISPLAY_SIZE.1 as i32,
        data,
    }
}


/// Flag word of the RGB timing (layout of `esp_lcd_rgb_timing_t` in ESP-IDF):
/// bit 0 hsync_idle_low, bit 1 vsync_idle_low, bit 2 de_idle_high,
/// bit 3 pclk_active_neg, bit 4 pclk_idle_high.
#[allow(non_camel_case_types)]
#[derive(Clone, Copy, Debug)]
pub struct esp_lcd_rgb_timing_t__bindgen_ty_1 {
    pub _bitfield_1: u32,
}

/// RGB interface timing of the panel.
#[allow(non_camel_case_types)]
#[derive(Clone, Copy, Debug)]
pub struct esp_lcd_rgb_timing_t {
    pub pclk_hz: u32,
    pub h_res: u32,
    pub v_res: u32,
    pub hsync_pulse_width: u32,
    pub hsync_back_porch: u32,
    pub hsync_front_porch: u32,
    pub vsync_pulse_width: u32,
    pub vsync_back_porch: u32,
    pub vsync_front_porch: u32,
    pub flags: esp_lcd_rgb_timing_t__bindgen_ty_1,
}

/// Flag word of the panel configuration: bit 2 fb_in_psram, bit 3 double_fb.
#[allow(non_camel_case_types)]
#[derive(Clone, Copy, Debug)]
pub struct esp_lcd_rgb_panel_config_t__bindgen_ty_1 {
    pub _bitfield_1: u32,
}

/// Configuration of the ESP32-S3 RGB LCD peripheral (`esp_lcd_rgb_panel_config_t`).
#[allow(non_camel_case_types)]
#[derive(Clone, Copy, Debug)]
pub struct esp_lcd_rgb_panel_config_t {
    pub clk_src: u32,
    pub timings: esp_lcd_rgb_timing_t,
    pub data_width: usize,
    pub bits_per_pixel: usize,
    pub num_fbs: usize,
    pub bounce_buffer_size_px: usize,
    pub sram_trans_align: usize,
    pub psram_trans_align: usize,
    pub hsync_gpio_num: i32,
    pub vsync_gpio_num: i32,
    pub de_gpio_num: i32,
    pub pclk_gpio_num: i32,
    pub disp_gpio_num: i32,
    pub data_gpio_nums: [i32; 16],
    pub flags: esp_lcd_rgb_panel_config_t__bindgen_ty_1,
}

/// GPIO numbers of the 16 data lines: blue 0..5, green 5..11, red 11..16.
pub open spec fn lcd_data_pins() -> Seq<i32> {
    seq![21i32, 47, 48, 45, 38, 9, 10, 11, 12, 13, 14, 7, 17, 18, 3, 46]
}

/// GPIO numbers that the LCD interface occupies: the control lines
/// (hsync, vsync, de, pclk) and the data lines.
pub open spec fn lcd_pins() -> Seq<i32> {
    seq![40i32, 41, 42, 39] + lcd_data_pins()
}

/// Timing flag bit `pclk_active_neg`: data are latched on the falling edge of
/// the pixel clock.
pub open spec fn timing_flag_pclk_active_neg() -> u32 {
    8
}

/// Panel flag bits `fb_in_psram` (bit 2) and `double_fb` (bit 3).
pub open spec fn panel_flags_psram_double_fb() -> u32 {
    12
}

/// The configuration with which the CrowPanel Advance 5.0 brings up its
/// panel, with the peripheral clock source `clk_src` (the PLL at 160 MHz on
/// the board; its number is ESP-IDF's): 16 MHz pixel clock, 800x480, 8-pixel
/// sync pulses, 20-pixel porches, latching on the falling clock edge, 16-bit
/// RGB565 data, two frame buffers in PSRAM, a bounce buffer of 10 rows.
pub fn panel_config(clk_src: u32) -> (c: esp_lcd_rgb_panel_config_t)
    ensures
        c.clk_src == clk_src,
        c.timings.pclk_hz == 16_000_000,
        c.timings.h_res == DISPLAY_SIZE.0,
        c.timings.v_res == DISPLAY_SIZE.1,
        c.timings.hsync_pulse_width == 8,
        c.timings.hsync_back_porch == 20,
        c.timings.hsync_front_porch == 20,
        c.timings.vsync_pulse_width == 8,
        c.timings.vsync_back_porch == 20,
        c.timings.vsync_front_porch == 20,
        c.timings.flags._bitfield_1 == timing_flag_pclk_active_neg(),
        c.data_width == 16,
        c.bits_per_pixel == 16,
        c.num_fbs == 2,
        c.bounce_buffer_size_px == DISPLAY_SIZE.0 as int * 10,
        c.sram_trans_align == 8,
        c.psram_trans_align == 64,
        c.hsync_gpio_num == 40,
        c.vsync_gpio_num == 41,
        c.de_gpio_num == 42,
        c.pclk_gpio_num == 39,
        c.disp_gpio_num == -1,
        c.data_gpio_nums@ == lcd_data_pins(),
        c.flags._bitfield_1 == panel_flags_psram_double_fb(),
{
    let timing = esp_lcd_rgb_timing_t {
        pclk_hz: 16_000_000,
        h_res: 800,
        v_res: 480,
        hsync_pulse_width: 8,
        hsync_back_porch: 20,
        hsync_front_porch: 20,
        vsync_pulse_width: 8,
        vsync_back_porch: 20,
        vsync_front_porch: 20,
        flags: esp_lcd_rgb_timing_t__bindgen_ty_1 { _bitfield_1: 1u32 << 3u32 },
    };
    assert(1u32 << 3u32 == 8u32) by (bit_vector);
    assert((1u32 << 2u32) | (1u32 << 3u32) == 12u32) by (bit_vector);
    let data_gpio_nums: [i32; 16] = [21, 47, 48, 45, 38, 9, 10, 11, 12, 13, 14, 7, 17, 18, 3, 46];
    assert(data_gpio_nums@ =~= lcd_data_pins());
    esp_lcd_rgb_panel_config_t {
        clk_src,
        timings: timing,
        data_width: 16,
        bits_per_pixel: 16,
        num_fbs: 2,
        bounce_buffer_size_px: 800 * 10,
        sram_trans_align: 8,
        psram_trans_align: 64,
        hsync_gpio_num: 40,
        vsync_gpio_num: 41,
        de_gpio_num: 42,
        pclk_gpio_num: 39,
        disp_gpio_num: -1,
        data_gpio_nums,
        flags: esp_lcd_rgb_panel_config_t__bindgen_ty_1 {
            _bitfield_1: (1u32 << 2u32) | (1u32 << 3u32),
        },
    }
}

/// The panel's pins are pairwise distinct: no GPIO carries two LCD signals.
pub proof fn lemma_lcd_pins_distinct()
    ensures
        forall|i: int, j: int|
            0 <= i < j < lcd_pins().len() ==> #[trigger] lcd_pins()[i] != #[trigger] lcd_pins()[j],
{
    assert(lcd_pins() =~= seq![40i32, 41, 42, 39, 21, 47, 48, 45, 38, 9, 10, 11, 12, 13, 14, 7, 17, 18, 3, 46]);
}

/// A stream that holds every color the fill reads yields a single draw over
/// the whole on-screen part of the area.
proof fn fill_draws_single(
    a: Area,
    colors: Seq<Color565>,
    draws: Seq<BitmapDraw>,
    x0: int,
    x1: int,
    y0: int,
    y1: int,
    k0: int,
    f: int,
)
    requires
        fill_built(a, colors, draws, x0, x1, y0, y1, k0, f),
    ensures
        colors.len() >= fill_colors_needed(a) ==> {
            &&& draws.len() == 1
            &&& draws[0].x_start == x0 && draws[0].x_end == x1
            &&& draws[0].y_start == y0 && draws[0].y_end == y1
        },
{
    let w = a.width as int;
    if colors.len() >= fill_colors_needed(a) && f < y1 - y0 {
        lemma_index_split(a, x0, y0, x1 - 1, y1 - 1);
        assert(f * w <= (y1 - 1 - y0) * w) by (nonlinear_arith)
            requires
                f <= y1 - 1 - y0,
                w >= 0,
        ;
    }
}

} // verus!
