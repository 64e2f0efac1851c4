//! Drawing an image with "▀" characters: each terminal cell shows two pixels,
//! the upper one as the foreground colour and the lower one as the background.
use vstd::prelude::*;

verus! {

/// One pixel's colour.
#[derive(Clone, Copy, Debug, PartialEq, Eq, Structural)]
pub struct RgbPixel {
    pub r: u8,
    pub g: u8,
    pub b: u8,
}

/// The two pixels one cell shows; `None` where the image has no pixel, which
/// is drawn in the terminal's own colour.
#[derive(Clone, Copy, Debug, PartialEq, Eq, Structural)]
pub struct HalfblockCell {
    pub top: Option<RgbPixel>,
    pub bottom: Option<RgbPixel>,
}

/// The pixel at column `x` of row `y` of a row-major image, if there is one.
pub open spec fn pixel_at(pixels: Seq<RgbPixel>, width: int, height: int, x: int, y: int) -> Option<RgbPixel> {
    if y < height && 0 <= y * width + x < pixels.len() {
        Some(pixels[y * width + x])
    } else {
        None
    }
}

/// The cells of a `width`×`height` image: one row of cells for every two
/// pixel rows, `width` cells per row.
pub fn render_halfblock_lines(pixels: &[RgbPixel], width: usize, height: usize) -> (r: Vec<Vec<HalfblockCell>>)
    requires
        height * width <= usize::MAX,
    ensures
        r@.len() == (height + 1) / 2,
        forall|row: int| 0 <= row < r@.len() ==> (#[trigger] r@[row])@.len() == width,
        forall|row: int, x: int|
            0 <= row < r@.len() && 0 <= x < width ==> (#[trigger] r@[row]@[x]).top == pixel_at(
                pixels@,
                width as int,
                height as int,
                x,
                2 * row,
            ) && r@[row]@[x].bottom == pixel_at(pixels@, width as int, height as int, x, 2 * row + 1),
{
    let mut lines: Vec<Vec<HalfblockCell>> = Vec::new();
    let rows = height / 2 + height % 2;
    let mut row: usize = 0;
    while row < rows
        invariant
            rows == (height + 1) / 2,
            height * width <= usize::MAX,
            row <= rows,
            lines@.len() == row,
            forall|rr: int| 0 <= rr < row ==> (#[trigger] lines@[rr])@.len() == width,
            forall|rr: int, x: int|
                0 <= rr < row && 0 <= x < width ==> (#[trigger] lines@[rr]@[x]).top == pixel_at(
                    pixels@,
                    width as int,
                    height as int,
                    x,
                    2 * rr,
                ) && lines@[rr]@[x].bottom == pixel_at(pixels@, width as int, height as int, x, 2 * rr + 1),
        decreases rows - row,
    {
        let top_y = row * 2;
        let bot_y = top_y + 1;
        assert(bot_y <= height) by (nonlinear_arith)
            requires
                row < rows,
                rows == (height + 1) / 2,
                top_y == row * 2,
                bot_y == top_y + 1,
        ;
        let mut spans: Vec<HalfblockCell> = Vec::new();
        let mut x: usize = 0;
        while x < width
            invariant
                x <= width,
                bot_y <= height,
                top_y == 2 * row,
                bot_y == top_y + 1,
                height * width <= usize::MAX,
                spans@.len() == x,
                forall|xx: int|
                    0 <= xx < x ==> (#[trigger] spans@[xx]).top == pixel_at(
                        pixels@,
                        width as int,
                        height as int,
                        xx,
                        top_y as int,
                    ) && spans@[xx].bottom == pixel_at(pixels@, width as int, height as int, xx, bot_y as int),
            decreases width - x,
        {
            assert(bot_y < height ==> bot_y * width + x < height * width) by (nonlinear_arith)
                requires
                    x < width,
            ;
            assert(top_y < height ==> top_y * width + x < height * width) by (nonlinear_arith)
                requires
                    x < width,
            ;
            let top_pixel = if top_y < height {
                let idx = top_y * width + x;
                if idx < pixels.len() {
                    Some(pixels[idx])
                } else {
                    None
                }
            } else {
                None
            };
            let bot_pixel = if bot_y < height {
                let idx = bot_y * width + x;
                if idx < pixels.len() {
                    Some(pixels[idx])
                } else {
                    None
                }
            } else {
                None
            };
            spans.push(HalfblockCell { top: top_pixel, bottom: bot_pixel });
            x += 1;
        }
        lines.push(spans);
        row += 1;
    }
    lines
}

} // verus!
