//! Geometry of the tray icon: a rounded square with a centred label.

use vstd::prelude::*;
use image::{ImageBuffer, Rgba, RgbaImage};

verus! {

/// The distance test of the corner arcs, on mathematical integers.
pub open spec fn in_rounded_square(x: int, y: int, size: int, radius: int) -> bool {
    let left = x < radius;
    let right = x >= size - radius;
    let top = y < radius;
    let bottom = y >= size - radius;
    if !(left || right) || !(top || bottom) {
        true
    } else {
        let cx = if left { radius } else { size - radius - 1 };
        let cy = if top { radius } else { size - radius - 1 };
        (x - cx) * (x - cx) + (y - cy) * (y - cy) <= radius * radius
    }
}

/// Whether `v` is a value of `i32`.
pub open spec fn fits_i32(v: int) -> bool {
    i32::MIN <= v <= i32::MAX
}

/// The `i32` arithmetic of the corner test does not overflow on this input.
pub open spec fn corner_test_fits(x: int, y: int, size: int, radius: int) -> bool {
    &&& fits_i32(size - radius)
    &&& {
        let left = x < radius;
        let right = x >= size - radius;
        let top = y < radius;
        let bottom = y >= size - radius;
        (left || right) && (top || bottom) ==> {
            let cx = if left { radius } else { size - radius - 1 };
            let cy = if top { radius } else { size - radius - 1 };
            &&& fits_i32(size - radius - 1)
            &&& fits_i32(x - cx)
            &&& fits_i32(y - cy)
            &&& fits_i32((x - cx) * (x - cx))
            &&& fits_i32((y - cy) * (y - cy))
            &&& fits_i32((x - cx) * (x - cx) + (y - cy) * (y - cy))
            &&& fits_i32(radius * radius)
        }
    }
}

/// Whether pixel `(x, y)` of a `size` x `size` square lies inside the square
/// once its corners are rounded with the given `radius`.
pub fn inside_rounded_rect(x: i32, y: i32, size: i32, radius: i32) -> (inside: bool)
    requires
        corner_test_fits(x as int, y as int, size as int, radius as int),
    ensures
        inside == in_rounded_square(x as int, y as int, size as int, radius as int),
{
    let left = x < radius;
    let right = x >= size - radius;
    let top = y < radius;
    let bottom = y >= size - radius;
    if !(left || right) || !(top || bottom) {
        return true;
    }
    let cx = if left { radius } else { size - radius - 1 };
    let cy = if top { radius } else { size - radius - 1 };
    let dx = x - cx;
    let dy = y - cy;
    dx * dx + dy * dy <= radius * radius
}

/// A colour as red, green, blue and alpha.
pub type Color = (u8, u8, u8, u8);

/// Fully transparent black, the colour the icon starts from.
pub open spec fn clear() -> Color {
    (0u8, 0u8, 0u8, 0u8)
}

/// An RGBA image of the `image` crate under construction. Only the
/// functions of this module make one, and they make it with
/// `ImageBuffer::from_pixel`, so its buffer holds exactly four bytes for each
/// pixel. The two names below describe what it holds: its size and the
/// colour of each of its pixels.
#[verifier::external_body]
pub struct IconCanvas {
    image: RgbaImage,
}

/// Width and height that the canvas was made with.
pub uninterp spec fn canvas_size(canvas: IconCanvas) -> (u32, u32);

/// The colour of each pixel of the canvas, keyed by `(x, y)`.
pub uninterp spec fn canvas_pixels(canvas: IconCanvas) -> Map<(u32, u32), Color>;

/// The pixels of a `width` x `height` image where every pixel has `color`.
pub open spec fn filled(width: u32, height: u32, color: Color) -> Map<(u32, u32), Color> {
    Map::new(|p: (u32, u32)| p.0 < width && p.1 < height, |p: (u32, u32)| color)
}

/// `ImageBuffer::from_pixel`: an image of the given size whose pixels all hold
/// `color`. The crate computes the buffer length as `4 * width`, then times
/// `height`, and panics when either product overflows `usize`, which
/// `requires` leaves out.
#[verifier::external_body]
fn blank_canvas(width: u32, height: u32, color: Color) -> (canvas: IconCanvas)
    requires
        4 * (width as int) <= usize::MAX,
        4 * (width as int) * (height as int) <= usize::MAX,
    ensures
        canvas_size(canvas) == (width, height),
        canvas_pixels(canvas) == filled(width, height, color),
{
    IconCanvas {
        image: ImageBuffer::from_pixel(width, height, Rgba([color.0, color.1, color.2, color.3])),
    }
}

/// `ImageBuffer::put_pixel`: sets pixel `(x, y)` to `color` and leaves the
/// size and every other pixel as they were. The crate panics outside the
/// image, which `requires` leaves out.
#[verifier::external_body]
fn paint_pixel(canvas: &mut IconCanvas, x: u32, y: u32, color: Color)
    requires
        x < canvas_size(*old(canvas)).0,
        y < canvas_size(*old(canvas)).1,
    ensures
        canvas_size(*final(canvas)) == canvas_size(*old(canvas)),
        canvas_pixels(*final(canvas)) == canvas_pixels(*old(canvas)).insert((x, y), color),
{
    canvas.image.put_pixel(x, y, Rgba([color.0, color.1, color.2, color.3]));
}

/// Whether `bytes` lays out `pixels` as the `image` crate stores a
/// `width` x `height` RGBA buffer: row after row, four bytes per pixel.
pub open spec fn rgba_layout(bytes: Seq<u8>, width: u32, height: u32, pixels: Map<(u32, u32), Color>) -> bool {
    &&& bytes.len() == 4 * (width as int) * (height as int)
    &&& forall|x: u32, y: u32|
        #![trigger pixels[(x, y)]]
        x < width && y < height ==> {
            let i = 4 * ((y as int) * (width as int) + (x as int));
            &&& bytes[i] == pixels[(x, y)].0
            &&& bytes[i + 1] == pixels[(x, y)].1
            &&& bytes[i + 2] == pixels[(x, y)].2
            &&& bytes[i + 3] == pixels[(x, y)].3
        }
}

/// `ImageBuffer::into_raw`: the buffer behind the canvas. Its pixel
/// `(x, y)` starts at byte `4 * (y * width + x)`, and (the canvas being made
/// by `from_pixel`) it holds no byte beyond the last pixel.
#[verifier::external_body]
fn canvas_bytes(canvas: IconCanvas) -> (bytes: Vec<u8>)
    ensures
        rgba_layout(bytes@, canvas_size(canvas).0, canvas_size(canvas).1, canvas_pixels(canvas)),
{
    canvas.image.into_raw()
}

/// Side of the tray icon in pixels.
pub const ICON_SIZE: i32 = 64;

/// Radius of the icon's rounded corners in pixels.
pub const CORNER_RADIUS: i32 = 12;

/// Whether `(x, y)` lies in the icon's square once its corners are rounded.
pub open spec fn in_icon_shape(x: int, y: int) -> bool {
    &&& 0 <= x < ICON_SIZE
    &&& 0 <= y < ICON_SIZE
    &&& in_rounded_square(x, y, ICON_SIZE as int, CORNER_RADIUS as int)
}

/// Whether the pixel map holds a colour for every pixel of a canvas of this
/// size.
pub open spec fn covers_canvas(pixels: Map<(u32, u32), Color>, size: (u32, u32)) -> bool {
    forall|x: u32, y: u32| x < size.0 && y < size.1 ==> #[trigger] pixels.dom().contains((x, y))
}

/// `before` with every pixel of the rounded square set to `fill`.
pub open spec fn with_rounded_square(before: Map<(u32, u32), Color>, fill: Color) -> Map<(u32, u32), Color> {
    Map::new(
        |p: (u32, u32)| before.dom().contains(p) || in_icon_shape(p.0 as int, p.1 as int),
        |p: (u32, u32)| if in_icon_shape(p.0 as int, p.1 as int) { fill } else { before[p] },
    )
}

/// The pixels of the rounded square that come before `(col, row)` in
/// row-major order set to `fill`.
pub open spec fn painted_up_to(before: Map<(u32, u32), Color>, fill: Color, row: int, col: int) -> Map<(u32, u32), Color> {
    Map::new(
        |p: (u32, u32)|
            before.dom().contains(p) || (in_icon_shape(p.0 as int, p.1 as int) && (p.1 < row || (
            p.1 == row && p.0 < col))),
        |p: (u32, u32)|
            if in_icon_shape(p.0 as int, p.1 as int) && (p.1 < row || (p.1 == row && p.0 < col)) {
                fill
            } else {
                before[p]
            },
    )
}

proof fn lemma_small_square(d: int)
    requires
        -64 <= d <= 64,
    ensures
        0 <= d * d <= 4096,
{
    assert(0 <= d * d <= 4096) by (nonlinear_arith)
        requires
            -64 <= d <= 64,
    ;
}

proof fn lemma_icon_corner_fits(x: int, y: int)
    requires
        0 <= x < 64,
        0 <= y < 64,
    ensures
        corner_test_fits(x, y, 64, 12),
{
    lemma_small_square(x - 12);
    lemma_small_square(x - 51);
    lemma_small_square(y - 12);
    lemma_small_square(y - 51);
}

/// Paints the icon's rounded square in `fill` onto the canvas, leaving the
/// pixels outside it as they were.
pub fn draw_rounded_square(canvas: &mut IconCanvas, fill: Color)
    requires
        canvas_size(*old(canvas)).0 >= ICON_SIZE,
        canvas_size(*old(canvas)).1 >= ICON_SIZE,
    ensures
        canvas_size(*final(canvas)) == canvas_size(*old(canvas)),
        canvas_pixels(*final(canvas)) == with_rounded_square(canvas_pixels(*old(canvas)), fill),
        covers_canvas(canvas_pixels(*old(canvas)), canvas_size(*old(canvas))) ==> covers_canvas(
            canvas_pixels(*final(canvas)),
            canvas_size(*final(canvas)),
        ),
{
    let ghost before = canvas_pixels(*canvas);
    let size: i32 = ICON_SIZE;
    let radius: i32 = CORNER_RADIUS;
    assert(painted_up_to(before, fill, 0, 0) =~= before);
    for y in 0..size
        invariant
            size == ICON_SIZE,
            radius == CORNER_RADIUS,
            canvas_size(*canvas) == canvas_size(*old(canvas)),
            canvas_size(*canvas).0 >= ICON_SIZE,
            canvas_size(*canvas).1 >= ICON_SIZE,
            canvas_pixels(*canvas) == painted_up_to(before, fill, y as int, 0),
    {
        for x in 0..size
            invariant
                size == ICON_SIZE,
                radius == CORNER_RADIUS,
                0 <= y < ICON_SIZE,
                canvas_size(*canvas) == canvas_size(*old(canvas)),
                canvas_size(*canvas).0 >= ICON_SIZE,
                canvas_size(*canvas).1 >= ICON_SIZE,
                canvas_pixels(*canvas) == painted_up_to(before, fill, y as int, x as int),
        {
            proof {
                lemma_icon_corner_fits(x as int, y as int);
            }
            let ghost prev = canvas_pixels(*canvas);
            if inside_rounded_rect(x, y, size, radius) {
                paint_pixel(canvas, x as u32, y as u32, fill);
                assert(canvas_pixels(*canvas) =~= painted_up_to(before, fill, y as int, x + 1));
            } else {
                assert(prev =~= painted_up_to(before, fill, y as int, x + 1));
            }
        }
        assert(painted_up_to(before, fill, y as int, ICON_SIZE as int) =~= painted_up_to(before, fill, y + 1, 0));
    }
    assert(painted_up_to(before, fill, ICON_SIZE as int, 0) =~= with_rounded_square(before, fill));
    assert(covers_canvas(before, canvas_size(*old(canvas))) ==> covers_canvas(
        canvas_pixels(*canvas),
        canvas_size(*canvas),
    ));
}

/// The colour of the icon's square: red for an error (`!`) or a low
/// balance, grey while checking (`...`), green otherwise.
pub open spec fn fill_for(label: Seq<char>, low_balance: bool) -> Color {
    if label == "!"@ {
        (185u8, 70u8, 60u8, 255u8)
    } else if label == "..."@ {
        (105u8, 105u8, 110u8, 255u8)
    } else if low_balance {
        (185u8, 70u8, 60u8, 255u8)
    } else {
        (60u8, 105u8, 102u8, 255u8)
    }
}

/// The colour of the icon's square for this label.
pub fn icon_fill(label: &str, low_balance: bool) -> (fill: Color)
    ensures
        fill == fill_for(label@, low_balance),
{
    if crate::text::same_text(label, "!") {
        (185, 70, 60, 255)
    } else if crate::text::same_text(label, "...") {
        (105, 105, 110, 255)
    } else if low_balance {
        (185, 70, 60, 255)
    } else {
        (60, 105, 102, 255)
    }
}

/// The pixel size of the label's font by the label's length in bytes: the
/// shorter the label, the larger the font.
pub open spec fn font_px_for(byte_len: nat) -> u32 {
    if byte_len <= 1 {
        48
    } else if byte_len == 2 {
        44
    } else {
        34
    }
}

/// The pixel size of the label's font.
pub fn label_font_px(label: &str) -> (px: u32)
    ensures
        px == font_px_for(label.len() as nat),
{
    let n = label.len();
    if n <= 1 {
        48
    } else if n == 2 {
        44
    } else {
        34
    }
}

/// The icon before its label is drawn: a transparent square with the
/// rounded square in `fill`.
pub open spec fn icon_picture(fill: Color) -> Map<(u32, u32), Color> {
    with_rounded_square(filled(ICON_SIZE as u32, ICON_SIZE as u32, clear()), fill)
}

/// The RGBA bytes of the tray icon before its label is drawn: the rounded
/// square, in the colour that the label and the balance call for, on a
/// transparent 64 x 64 canvas.
pub fn icon_background(label: &str, low_balance: bool) -> (rgba: Vec<u8>)
    ensures
        rgba_layout(rgba@, ICON_SIZE as u32, ICON_SIZE as u32, icon_picture(fill_for(label@, low_balance))),
        covers_canvas(icon_picture(fill_for(label@, low_balance)), (ICON_SIZE as u32, ICON_SIZE as u32)),
{
    let side = ICON_SIZE as u32;
    let mut canvas = blank_canvas(side, side, (0, 0, 0, 0));
    assert(covers_canvas(canvas_pixels(canvas), canvas_size(canvas)));
    let fill = icon_fill(label, low_balance);
    draw_rounded_square(&mut canvas, fill);
    canvas_bytes(canvas)
}

/// A glyph's pixel bounding box: `(min_x, min_y, max_x, max_y)`.
pub type GlyphBox = (i32, i32, i32, i32);

pub open spec fn min_int(a: int, b: int) -> int {
    if a < b { a } else { b }
}

pub open spec fn max_int(a: int, b: int) -> int {
    if a > b { a } else { b }
}

/// The bounds of the laid-out text, starting from the origin: the least
/// `min_x` and `min_y` (at most 0) and the greatest `max_x` and `max_y`
/// (at least 0) over the glyphs.
pub open spec fn text_bounds(boxes: Seq<GlyphBox>) -> (int, int, int, int)
    decreases boxes.len(),
{
    if boxes.len() == 0 {
        (0, 0, 0, 0)
    } else {
        let b = text_bounds(boxes.drop_last());
        let g = boxes.last();
        (
            min_int(b.0, g.0 as int),
            min_int(b.1, g.1 as int),
            max_int(b.2, g.2 as int),
            max_int(b.3, g.3 as int),
        )
    }
}

/// Division by two rounding toward zero, as `/` on `i32` does.
pub open spec fn half_toward_zero(v: int) -> int {
    if v >= 0 {
        v / 2
    } else {
        -((-v) / 2)
    }
}

/// Where to put the text so that its bounds are centred in a
/// `width` x `height` area.
pub open spec fn centred_origin(boxes: Seq<GlyphBox>, width: int, height: int) -> (int, int) {
    let b = text_bounds(boxes);
    (half_toward_zero(width - (b.2 - b.0)) - b.0, half_toward_zero(height - (b.3 - b.1)) - b.1)
}

/// The `i32` arithmetic of the centring does not overflow.
pub open spec fn centring_fits(boxes: Seq<GlyphBox>, width: int, height: int) -> bool {
    let b = text_bounds(boxes);
    &&& fits_i32(b.2 - b.0)
    &&& fits_i32(b.3 - b.1)
    &&& fits_i32(width - (b.2 - b.0))
    &&& fits_i32(height - (b.3 - b.1))
    &&& fits_i32(half_toward_zero(width - (b.2 - b.0)) - b.0)
    &&& fits_i32(half_toward_zero(height - (b.3 - b.1)) - b.1)
}

fn half_i32(v: i32) -> (h: i32)
    ensures
        h == half_toward_zero(v as int),
{
    if v >= 0 {
        v / 2
    } else if v == i32::MIN {
        -1073741824
    } else {
        -((-v) / 2)
    }
}

/// The position at which to draw text whose glyphs have these bounding
/// boxes so that it is centred in a `width` x `height` area.
pub fn centered_text_position(boxes: &Vec<GlyphBox>, width: i32, height: i32) -> (origin: (i32, i32))
    requires
        centring_fits(boxes@, width as int, height as int),
    ensures
        (origin.0 as int, origin.1 as int) == centred_origin(boxes@, width as int, height as int),
{
    let mut min_x: i32 = 0;
    let mut min_y: i32 = 0;
    let mut max_x: i32 = 0;
    let mut max_y: i32 = 0;
    let mut i: usize = 0;
    while i < boxes.len()
        invariant
            i <= boxes@.len(),
            text_bounds(boxes@.take(i as int)) == (min_x as int, min_y as int, max_x as int, max_y as int),
        decreases boxes@.len() - i,
    {
        let g = boxes[i];
        proof {
            assert(boxes@.take(i + 1).drop_last() =~= boxes@.take(i as int));
        }
        if g.0 < min_x {
            min_x = g.0;
        }
        if g.1 < min_y {
            min_y = g.1;
        }
        if g.2 > max_x {
            max_x = g.2;
        }
        if g.3 > max_y {
            max_y = g.3;
        }
        i = i + 1;
    }
    assert(boxes@.take(boxes@.len() as int) =~= boxes@);
    let text_width = max_x - min_x;
    let text_height = max_y - min_y;
    (half_i32(width - text_width) - min_x, half_i32(height - text_height) - min_y)
}

proof fn lemma_square_of_negation(d: int)
    ensures
        (-d) * (-d) == d * d,
{
    assert((-d) * (-d) == d * d) by (nonlinear_arith);
}

/// A square whose corners are rounded by at most half its side is the same
/// when mirrored left to right, top to bottom, or across its diagonal.
pub proof fn lemma_rounded_square_symmetric(x: int, y: int, size: int, radius: int)
    requires
        0 <= radius,
        2 * radius <= size,
        0 <= x < size,
        0 <= y < size,
    ensures
        in_rounded_square(x, y, size, radius) == in_rounded_square(size - 1 - x, y, size, radius),
        in_rounded_square(x, y, size, radius) == in_rounded_square(x, size - 1 - y, size, radius),
        in_rounded_square(x, y, size, radius) == in_rounded_square(y, x, size, radius),
{
    let cx = if x < radius { radius } else { size - radius - 1 };
    let cy = if y < radius { radius } else { size - radius - 1 };
    let mx = size - 1 - x;
    let my = size - 1 - y;
    let cmx = if mx < radius { radius } else { size - radius - 1 };
    let cmy = if my < radius { radius } else { size - radius - 1 };
    lemma_square_of_negation(x - cx);
    lemma_square_of_negation(y - cy);
    assert(mx - cmx == -(x - cx) || !(mx < radius || mx >= size - radius));
    assert(my - cmy == -(y - cy) || !(my < radius || my >= size - radius));
}

} // verus!
