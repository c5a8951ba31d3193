use vstd::prelude::*;

use crate::phase::State;
use crate::options::{ThresholdMethod, ADAPTIVE_THRESHOLD};
use crate::raster::{adaptive_fits, adaptive_of, adaptive_threshold, SourceImage};

verus! {

/// Code point of the empty braille pattern; every cell starts from it.
pub const BLANK_CELL: u32 = 0x2800;

/// Code point that ends every line of the output.
pub const LINE_BREAK: u32 = 10;

/// Number of cells on a line: the width rounded up to a multiple of two, halved.
pub open spec fn cols(w: int) -> int {
    (w + 1) / 2
}

/// Number of lines: the height rounded up to a multiple of four, divided by four.
pub open spec fn rows(h: int) -> int {
    (h + 3) / 4
}

/// Code points per line: its cells and the line break.
pub open spec fn line_len(w: int) -> int {
    cols(w) + 1
}

/// Code points in the whole output.
pub open spec fn grid_len(w: int, h: int) -> int {
    line_len(w) * rows(h)
}

/// Whether the pixel at column `x`, row `y` is ink under `threshold`. Pixels
/// outside the image (the padding) never are; an intensity equal to the
/// threshold is not ink.
pub open spec fn is_ink(w: int, h: int, px: Seq<u8>, threshold: u8, x: int, y: int) -> bool {
    0 <= x < w && 0 <= y < h && px[y * w + x] > threshold
}

/// The dot that a pixel stands for, by its row in the cell and its side.
pub open spec fn dot_bit(phase: int, left: bool) -> u32 {
    if phase == 0 {
        if left { 0x08 } else { 0x01 }
    } else if phase == 1 {
        if left { 0x10 } else { 0x02 }
    } else if phase == 2 {
        if left { 0x20 } else { 0x04 }
    } else {
        if left { 0x80 } else { 0x40 }
    }
}

/// What the pixel at `(x, y)` adds to its cell: its dot when it is ink, else nothing.
pub open spec fn contribution(w: int, h: int, px: Seq<u8>, threshold: u8, x: int, y: int) -> int {
    if is_ink(w, h, px, threshold, x, y) {
        dot_bit(y % 4, x % 2 == 0) as int
    } else {
        0
    }
}

/// The dots of the two pixels of row `y` that fall in cell column `c`.
pub open spec fn pair_bits(w: int, h: int, px: Seq<u8>, threshold: u8, c: int, y: int) -> int {
    contribution(w, h, px, threshold, 2 * c, y) + contribution(w, h, px, threshold, 2 * c + 1, y)
}

/// The dots of the cell on line `r`, column `c`.
pub open spec fn cell_bits(w: int, h: int, px: Seq<u8>, threshold: u8, r: int, c: int) -> int {
    pair_bits(w, h, px, threshold, c, 4 * r) + pair_bits(w, h, px, threshold, c, 4 * r + 1)
        + pair_bits(w, h, px, threshold, c, 4 * r + 2) + pair_bits(w, h, px, threshold, c, 4 * r + 3)
}

/// The code point at position `i` of the output.
pub open spec fn code_at(w: int, h: int, px: Seq<u8>, threshold: u8, i: int) -> u32 {
    if i % line_len(w) == cols(w) {
        LINE_BREAK
    } else {
        (BLANK_CELL + cell_bits(w, h, px, threshold, i / line_len(w), i % line_len(w))) as u32
    }
}

/// The rendering of a `w` by `h` image with intensities `px`: `rows(h)` lines of
/// `cols(w)` braille code points, each line followed by a line break.
pub open spec fn braille_grid(w: int, h: int, px: Seq<u8>, threshold: u8) -> Seq<u32> {
    Seq::new(grid_len(w, h) as nat, |i: int| code_at(w, h, px, threshold, i))
}

/// `text` holds exactly the code points `codes`.
pub open spec fn spells(text: Seq<char>, codes: Seq<u32>) -> bool {
    &&& text.len() == codes.len()
    &&& forall|i: int| 0 <= i < text.len() ==> #[trigger] text[i] as int == codes[i] as int
}

/// The code points that `to_unicode` spells for `img` under `method`.
pub open spec fn rendering(img: SourceImage, method: ThresholdMethod) -> Seq<u32> {
    let w = img.width as int;
    let h = img.height as int;
    match method {
        ThresholdMethod::Fixed(t) => braille_grid(w, h, img.pixels@, t),
        ThresholdMethod::Adaptive(radius) => braille_grid(
            w,
            h,
            adaptive_of(img.width as nat, img.height as nat, img.pixels@, radius as nat),
            ADAPTIVE_THRESHOLD,
        ),
    }
}

/// Sizes that `to_unicode` handles: padded sizes and the output length fit
/// their machine types, and the adaptive transform can run.
pub open spec fn fits(img: SourceImage, method: ThresholdMethod) -> bool {
    &&& img.width < u32::MAX
    &&& img.height <= u32::MAX - 3
    &&& grid_len(img.width as int, img.height as int) <= usize::MAX
    &&& match method {
        ThresholdMethod::Fixed(_) => true,
        ThresholdMethod::Adaptive(radius) => adaptive_fits(
            img.width as int,
            img.height as int,
            radius as int,
        ),
    }
}

/// A line break or a braille pattern, U+2800 to U+28FF.
pub open spec fn is_output_code(c: u32) -> bool {
    c == LINE_BREAK || BLANK_CELL <= c <= BLANK_CELL + 0xFF
}

/// Whether pixel `(x2, y2)` comes before `(x, y)` in row-major order.
spec fn seen(x2: int, y2: int, x: int, y: int) -> bool {
    y2 < y || (y2 == y && x2 < x)
}

spec fn part(w: int, h: int, px: Seq<u8>, t: u8, x2: int, y2: int, x: int, y: int) -> int {
    if seen(x2, y2, x, y) {
        contribution(w, h, px, t, x2, y2)
    } else {
        0
    }
}

spec fn pair_partial(w: int, h: int, px: Seq<u8>, t: u8, c: int, y2: int, x: int, y: int) -> int {
    part(w, h, px, t, 2 * c, y2, x, y) + part(w, h, px, t, 2 * c + 1, y2, x, y)
}

/// The dots of cell `(r, c)` from the pixels that come before `(x, y)`.
spec fn cell_partial(w: int, h: int, px: Seq<u8>, t: u8, r: int, c: int, x: int, y: int) -> int {
    pair_partial(w, h, px, t, c, 4 * r, x, y) + pair_partial(w, h, px, t, c, 4 * r + 1, x, y)
        + pair_partial(w, h, px, t, c, 4 * r + 2, x, y) + pair_partial(w, h, px, t, c, 4 * r + 3, x, y)
}

spec fn partial_code(w: int, h: int, px: Seq<u8>, t: u8, i: int, x: int, y: int) -> u32 {
    if i % line_len(w) == cols(w) {
        LINE_BREAK
    } else {
        (BLANK_CELL + cell_partial(w, h, px, t, i / line_len(w), i % line_len(w), x, y)) as u32
    }
}

proof fn lemma_partial_bounds(w: int, h: int, px: Seq<u8>, t: u8, r: int, c: int, x: int, y: int)
    ensures
        0 <= cell_partial(w, h, px, t, r, c, x, y) <= 0xFF,
{
}

proof fn lemma_cell_bounds(w: int, h: int, px: Seq<u8>, t: u8, r: int, c: int)
    ensures
        0 <= cell_bits(w, h, px, t, r, c) <= 0xFF,
{
}

/// Every code point of a rendering is a line break or a braille pattern.
pub proof fn lemma_grid_codes(w: int, h: int, px: Seq<u8>, t: u8)
    requires
        w >= 0,
        h >= 0,
    ensures
        forall|i: int| 0 <= i < grid_len(w, h) ==> is_output_code(#[trigger] braille_grid(w, h, px, t)[i]),
{
    assert forall|i: int| 0 <= i < grid_len(w, h) implies is_output_code(#[trigger] braille_grid(w, h, px, t)[i]) by {
        lemma_cell_bounds(w, h, px, t, i / line_len(w), i % line_len(w));
    }
}

proof fn lemma_partial_start(w: int, h: int, px: Seq<u8>, t: u8, r: int, c: int)
    requires
        r >= 0,
    ensures
        cell_partial(w, h, px, t, r, c, 0, 0) == 0,
{
}

proof fn lemma_partial_step(w: int, h: int, px: Seq<u8>, t: u8, r: int, c: int, x: int, y: int)
    requires
        0 <= x,
        0 <= y,
    ensures
        cell_partial(w, h, px, t, r, c, x + 1, y) == cell_partial(w, h, px, t, r, c, x, y) + (
        if r == y / 4 && c == x / 2 {
            contribution(w, h, px, t, x, y)
        } else {
            0
        }),
{
}

proof fn lemma_partial_row_end(w: int, h: int, px: Seq<u8>, t: u8, r: int, c: int, y: int)
    requires
        0 <= w,
    ensures
        cell_partial(w, h, px, t, r, c, w, y) == cell_partial(w, h, px, t, r, c, 0, y + 1),
{
}

proof fn lemma_partial_done(w: int, h: int, px: Seq<u8>, t: u8, r: int, c: int)
    ensures
        cell_partial(w, h, px, t, r, c, 0, h) == cell_bits(w, h, px, t, r, c),
{
}

/// The smallest multiple of `y` that is at least `x`.
pub fn next_multiple_ge_x(x: u32, y: u32) -> (r: u32)
    requires
        y > 0,
        x as int + (y as int - x as int % y as int) % (y as int) <= u32::MAX,
    ensures
        r % y == 0,
        x <= r < x + y,
{
    if x % y == 0 {
        x
    } else {
        proof {
            let q = x as int / y as int;
            let m = x as int % y as int;
            assert((y as int - m) % (y as int) == y as int - m) by (nonlinear_arith)
                requires y > 0, 0 < m < y;
            assert(x == y * q + m) by (nonlinear_arith)
                requires y > 0, q == x / y, m == x % y;
            assert((q + 1) * y == x + (y - m)) by (nonlinear_arith)
                requires x == y * q + m;
            assert(((q + 1) * y as int) % (y as int) == 0) by (nonlinear_arith)
                requires y > 0, q >= 0;
            assert(q + 1 <= (q + 1) * y as int) by (nonlinear_arith)
                requires y > 0, q >= 0;
        }
        (x / y + 1) * y
    }
}

/// The dot of a pixel in row `state` of its cell, on its left or right side.
fn dot_for(state: State, left: bool) -> (r: u32)
    ensures
        r == dot_bit(state.index() as int, left),
{
    match (state, left) {
        (State::S0, true) => 0x08,
        (State::S0, false) => 0x01,
        (State::S1, true) => 0x10,
        (State::S1, false) => 0x02,
        (State::S2, true) => 0x20,
        (State::S2, false) => 0x04,
        (State::S3, true) => 0x80,
        (State::S3, false) => 0x40,
    }
}

/// Encodes `img` with a fixed threshold into code points: a pixel is ink when
/// its intensity is above `threshold`.
pub fn encode_with_threshold(img: &SourceImage, threshold: u8) -> (r: Vec<u32>)
    requires
        img.wf(),
        img.width < u32::MAX,
        img.height <= u32::MAX - 3,
        grid_len(img.width as int, img.height as int) <= usize::MAX,
    ensures
        r@ == braille_grid(img.width as int, img.height as int, img.pixels@, threshold),
{
    let ghost w = img.width as int;
    let ghost h = img.height as int;
    let ghost px = img.pixels@;
    let padded_w = next_multiple_ge_x(img.width, 2);
    let padded_h = next_multiple_ge_x(img.height, 4);
    assert(padded_w / 2 == cols(w));
    assert(padded_h / 4 == rows(h));
    let ncols: usize = (padded_w / 2) as usize;
    let line: usize = ncols + 1;
    let nrows: usize = (padded_h / 4) as usize;
    let total: usize = line * nrows;

    let mut buf: Vec<u32> = Vec::new();
    let mut i: usize = 0;
    while i < total
        invariant
            i <= total,
            total == grid_len(w, h),
            line == line_len(w),
            ncols == cols(w),
            buf@.len() == i,
            forall|j: int| 0 <= j < i ==> #[trigger] buf@[j] == partial_code(w, h, px, threshold, j, 0, 0),
        decreases total - i,
    {
        if i % line == ncols {
            buf.push(LINE_BREAK);
        } else {
            proof {
                lemma_partial_start(w, h, px, threshold, i as int / line as int, i as int % line as int);
            }
            buf.push(BLANK_CELL);
        }
        i += 1;
    }

    let n_pixels: usize = img.pixels.len();
    let mut state = State::S0;
    let mut y: u32 = 0;
    while y < img.height
        invariant
            img.wf(),
            w == img.width,
            h == img.height,
            px == img.pixels@,
            y <= h,
            n_pixels == px.len(),
            state.index() == y % 4,
            total == grid_len(w, h),
            line == line_len(w),
            ncols == cols(w),
            nrows == rows(h),
            buf@.len() == total,
            forall|j: int| 0 <= j < total ==> #[trigger] buf@[j] == partial_code(w, h, px, threshold, j, 0, y as int),
        decreases h - y,
    {
        proof {
            assert(y as int * w + w <= h * w) by (nonlinear_arith)
                requires y < h, w >= 0;
            assert(h * w == px.len()) by (nonlinear_arith)
                requires px.len() == w * h;
            assert((y / 4) as int * line + line <= total) by (nonlinear_arith)
                requires y < h, nrows == (h + 3) / 4, total == line * nrows, line >= 1;
        }
        let row_start: usize = y as usize * img.width as usize;
        let cell_row: usize = (y / 4) as usize * line;
        let mut x: u32 = 0;
        while x < img.width
            invariant
                img.wf(),
                w == img.width,
                h == img.height,
                px == img.pixels@,
                y < h,
                x <= w,
                state.index() == y % 4,
                row_start == y * w,
                row_start + w <= px.len(),
                n_pixels == px.len(),
                cell_row == (y / 4) as int * line,
                cell_row + line <= total,
                total == grid_len(w, h),
                line == line_len(w),
                ncols == cols(w),
                buf@.len() == total,
                forall|j: int| 0 <= j < total ==> #[trigger] buf@[j] == partial_code(w, h, px, threshold, j, x as int, y as int),
            decreases w - x,
        {
            let ghost old_buf = buf@;
            let k: usize = cell_row + (x / 2) as usize;
            let p = img.pixels[row_start + x as usize];
            proof {
                assert(k / line == y / 4 && k % line == x / 2) by (nonlinear_arith)
                    requires k == (y / 4) * line + x / 2, x / 2 < line, line >= 1, y >= 0, x >= 0;
                lemma_partial_bounds(w, h, px, threshold, (y / 4) as int, (x / 2) as int, x as int, y as int);
            }
            if p > threshold {
                let v = dot_for(state, x % 2 == 0);
                let cur = buf[k];
                buf.set(k, cur + v);
            }
            proof {
                assert forall|j: int| 0 <= j < total implies #[trigger] buf@[j] == partial_code(w, h, px, threshold, j, x + 1, y as int) by {
                    let r = j / line as int;
                    let c = j % line as int;
                    lemma_partial_step(w, h, px, threshold, r, c, x as int, y as int);
                    lemma_partial_bounds(w, h, px, threshold, r, c, x + 1, y as int);
                    assert(j == r * line + c) by (nonlinear_arith)
                        requires r == j / line as int, c == j % line as int, line >= 1;
                    if r == y / 4 && c == x / 2 {
                        assert(j == k);
                    } else {
                        assert(j != k);
                    }
                }
            }
            x += 1;
        }
        proof {
            assert forall|j: int| 0 <= j < total implies #[trigger] buf@[j] == partial_code(w, h, px, threshold, j, 0, y + 1) by {
                lemma_partial_row_end(w, h, px, threshold, j / line as int, j % line as int, y as int);
            }
        }
        state = state.next_state();
        y += 1;
    }
    proof {
        assert forall|j: int| 0 <= j < total implies #[trigger] buf@[j] == code_at(w, h, px, threshold, j) by {
            lemma_partial_done(w, h, px, threshold, j / line as int, j % line as int);
        }
        assert(buf@ =~= braille_grid(w, h, px, threshold));
    }
    buf
}

/// Relies on char::from_u32: it gives the character with that code point
/// exactly when the value is a Unicode scalar value.
pub assume_specification[ char::from_u32 ](i: u32) -> (r: Option<char>)
    ensures
        r is Some <==> (i <= 0xD7FF || (0xE000 <= i && i <= 0x10FFFF)),
        r matches Some(c) ==> c as int == i as int,
;

/// Relies on String's `FromIterator<&char>`: the string holds the characters
/// in their order.
#[verifier::external_body]
fn collect_text(chars: &Vec<char>) -> (r: String)
    ensures
        r@ == chars@,
{
    chars.iter().collect()
}

/// Turns line breaks and braille code points into text.
fn codes_to_text(codes: &Vec<u32>) -> (r: String)
    requires
        forall|i: int| 0 <= i < codes@.len() ==> is_output_code(#[trigger] codes@[i]),
    ensures
        spells(r@, codes@),
{
    let mut chars: Vec<char> = Vec::new();
    let mut i: usize = 0;
    while i < codes.len()
        invariant
            i <= codes@.len(),
            chars@.len() == i,
            forall|j: int| 0 <= j < codes@.len() ==> is_output_code(#[trigger] codes@[j]),
            forall|j: int| 0 <= j < i ==> #[trigger] chars@[j] as int == codes@[j] as int,
        decreases codes@.len() - i,
    {
        assert(is_output_code(codes@[i as int]));
        match char::from_u32(codes[i]) {
            Some(c) => chars.push(c),
            None => {
                proof {
                    assert(false);
                }
            },
        }
        i += 1;
    }
    collect_text(&chars)
}

/// Whether `to_unicode` accepts `src` and `method`.
pub fn renderable(src: &SourceImage, method: ThresholdMethod) -> (r: bool)
    ensures
        r == (src.wf() && fits(*src, method)),
{
    let w = src.width as u64;
    let h = src.height as u64;
    proof {
        assert(w * h <= u32::MAX as int * u32::MAX as int) by (nonlinear_arith)
            requires w <= u32::MAX, h <= u32::MAX;
    }
    if src.pixels.len() as u64 != w * h || src.width == u32::MAX || src.height > u32::MAX - 3 {
        return false;
    }
    let line: u64 = (w + 1) / 2 + 1;
    let nrows: u64 = (h + 3) / 4;
    proof {
        assert(line * nrows <= u64::MAX) by (nonlinear_arith)
            requires line <= 0x8000_0001, nrows <= 0x4000_0000;
    }
    assert(line == line_len(w as int) && nrows == rows(h as int));
    assert(line * nrows == grid_len(w as int, h as int));
    if line * nrows > usize::MAX as u64 {
        return false;
    }
    match method {
        ThresholdMethod::Fixed(_) => true,
        ThresholdMethod::Adaptive(radius) => {
            let r = radius as u64;
            proof {
                assert(510 * w * h == 510 * (w * h) && 510 * (w * h) >= w * h) by (nonlinear_arith)
                    requires w >= 0, h >= 0;
            }
            r > 0 && w + r <= i32::MAX as u64 && h + r <= i32::MAX as u64 && w * h <= u32::MAX as u64
                && 510 * (w * h) <= u32::MAX as u64
        },
    }
}

/// Renders `src` as braille text: one line per four rows of pixels, one
/// character per two columns, pixels told apart into ink and background by
/// `method`.
pub fn to_unicode(src: &SourceImage, method: ThresholdMethod) -> (r: String)
    requires
        src.wf(),
        fits(*src, method),
    ensures
        spells(r@, rendering(*src, method)),
{
    let codes = match method {
        ThresholdMethod::Fixed(t) => encode_with_threshold(src, t),
        ThresholdMethod::Adaptive(radius) => {
            let binarized = adaptive_threshold(src, radius);
            encode_with_threshold(&binarized, ADAPTIVE_THRESHOLD)
        },
    };
    proof {
        let px = match method {
            ThresholdMethod::Fixed(_) => src.pixels@,
            ThresholdMethod::Adaptive(radius) => adaptive_of(
                src.width as nat,
                src.height as nat,
                src.pixels@,
                radius as nat,
            ),
        };
        let t = match method {
            ThresholdMethod::Fixed(t) => t,
            ThresholdMethod::Adaptive(_) => ADAPTIVE_THRESHOLD,
        };
        lemma_grid_codes(src.width as int, src.height as int, px, t);
    }
    codes_to_text(&codes)
}

} // verus!
