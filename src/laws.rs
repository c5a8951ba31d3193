use vstd::arithmetic::div_mod::{lemma_fundamental_div_mod, lemma_fundamental_div_mod_converse_div};
use vstd::prelude::*;

use crate::braille::{
    braille_grid, cell_bits, cols, contribution, dot_bit, grid_len, is_ink, is_output_code,
    lemma_grid_codes, line_len, rendering, rows, spells, BLANK_CELL, LINE_BREAK,
};
use crate::raster::adaptive_of;
use crate::options::ThresholdMethod;
use crate::raster::SourceImage;

verus! {

/// An image whose width is even and whose height is a multiple of four renders
/// as `h / 4` lines, each of `w / 2` braille patterns and a line break.
pub proof fn lemma_grid_shape(w: int, h: int, px: Seq<u8>, t: u8)
    requires
        w >= 0,
        h >= 0,
        w % 2 == 0,
        h % 4 == 0,
    ensures
        braille_grid(w, h, px, t).len() == (h / 4) * (w / 2 + 1),
        forall|l: int| 0 <= l < h / 4 ==> #[trigger] braille_grid(w, h, px, t)[l * (w / 2 + 1) + w / 2] == LINE_BREAK,
        forall|l: int, c: int|
            0 <= l < h / 4 && 0 <= c < w / 2 ==> BLANK_CELL <= #[trigger] braille_grid(w, h, px, t)[l * (w / 2 + 1) + c] <= BLANK_CELL + 0xFF,
{
    let ln = w / 2 + 1;
    assert(line_len(w) == ln && cols(w) == w / 2 && rows(h) == h / 4);
    assert forall|l: int, c: int| 0 <= l < h / 4 && 0 <= c <= w / 2 implies
        0 <= #[trigger] (l * ln + c) < grid_len(w, h) && (l * ln + c) / ln == l && (l * ln + c) % ln == c by {
        assert(0 <= l * ln + c < ln * (h / 4) && (l * ln + c) / ln == l && (l * ln + c) % ln == c) by (nonlinear_arith)
            requires 0 <= l < h / 4, 0 <= c < ln, ln >= 1;
    }
    assert forall|l: int, c: int|
        0 <= l < h / 4 && 0 <= c < w / 2 implies BLANK_CELL <= #[trigger] braille_grid(w, h, px, t)[l * (w / 2 + 1) + c] <= BLANK_CELL + 0xFF by {
        assert(0 <= cell_bits(w, h, px, t, l, c) <= 0xFF);
    }
}

/// Two texts that meet `to_unicode`'s contract for images of the same size
/// and intensities, under the same method, are the same text: the rendering
/// depends on those values alone.
pub proof fn lemma_rendering_deterministic(
    s1: Seq<char>,
    s2: Seq<char>,
    img1: SourceImage,
    img2: SourceImage,
    method: ThresholdMethod,
)
    requires
        img1.width == img2.width,
        img1.height == img2.height,
        img1.pixels@ == img2.pixels@,
        spells(s1, rendering(img1, method)),
        spells(s2, rendering(img2, method)),
    ensures
        s1 == s2,
{
    assert(rendering(img1, method) == rendering(img2, method));
    assert forall|i: int| 0 <= i < s1.len() implies s1[i] == s2[i] by {
        assert(s1[i] as int == s2[i] as int);
    }
    assert(s1 =~= s2);
}

/// Where the cell on line `r`, column `c` lies in the output.
proof fn lemma_cell_index(w: int, h: int, r: int, c: int)
    requires
        w >= 0,
        0 <= r < rows(h),
        0 <= c < cols(w),
    ensures
        0 <= r * line_len(w) + c < grid_len(w, h),
        (r * line_len(w) + c) / line_len(w) == r,
        (r * line_len(w) + c) % line_len(w) == c,
{
    let ln = line_len(w);
    assert(0 <= r * ln + c < ln * rows(h) && (r * ln + c) / ln == r && (r * ln + c) % ln == c) by (nonlinear_arith)
        requires 0 <= r < rows(h), 0 <= c < ln, ln >= 1;
}

/// A cell none of whose eight pixels is ink is the blank pattern U+2800.
pub proof fn lemma_blank_cell(w: int, h: int, px: Seq<u8>, t: u8, r: int, c: int)
    requires
        w >= 0,
        0 <= r < rows(h),
        0 <= c < cols(w),
        forall|x: int, y: int| 2 * c <= x < 2 * c + 2 && 4 * r <= y < 4 * r + 4 ==> !#[trigger] is_ink(w, h, px, t, x, y),
    ensures
        braille_grid(w, h, px, t)[r * line_len(w) + c] == BLANK_CELL,
{
    lemma_cell_index(w, h, r, c);
    assert(!is_ink(w, h, px, t, 2 * c, 4 * r) && !is_ink(w, h, px, t, 2 * c + 1, 4 * r));
    assert(!is_ink(w, h, px, t, 2 * c, 4 * r + 1) && !is_ink(w, h, px, t, 2 * c + 1, 4 * r + 1));
    assert(!is_ink(w, h, px, t, 2 * c, 4 * r + 2) && !is_ink(w, h, px, t, 2 * c + 1, 4 * r + 2));
    assert(!is_ink(w, h, px, t, 2 * c, 4 * r + 3) && !is_ink(w, h, px, t, 2 * c + 1, 4 * r + 3));
}

/// A cell all eight of whose pixels are ink is the full pattern U+28FF.
pub proof fn lemma_full_cell(w: int, h: int, px: Seq<u8>, t: u8, r: int, c: int)
    requires
        w >= 0,
        0 <= r < rows(h),
        0 <= c < cols(w),
        forall|x: int, y: int| 2 * c <= x < 2 * c + 2 && 4 * r <= y < 4 * r + 4 ==> #[trigger] is_ink(w, h, px, t, x, y),
    ensures
        braille_grid(w, h, px, t)[r * line_len(w) + c] == BLANK_CELL + 0xFF,
{
    lemma_cell_index(w, h, r, c);
    assert(is_ink(w, h, px, t, 2 * c, 4 * r) && is_ink(w, h, px, t, 2 * c + 1, 4 * r));
    assert(is_ink(w, h, px, t, 2 * c, 4 * r + 1) && is_ink(w, h, px, t, 2 * c + 1, 4 * r + 1));
    assert(is_ink(w, h, px, t, 2 * c, 4 * r + 2) && is_ink(w, h, px, t, 2 * c + 1, 4 * r + 2));
    assert(is_ink(w, h, px, t, 2 * c, 4 * r + 3) && is_ink(w, h, px, t, 2 * c + 1, 4 * r + 3));
    assert((2 * c) % 2 == 0 && (2 * c + 1) % 2 == 1);
    assert((4 * r) % 4 == 0 && (4 * r + 1) % 4 == 1 && (4 * r + 2) % 4 == 2 && (4 * r + 3) % 4 == 3);
}

/// A pixel whose intensity equals the threshold is not ink.
pub proof fn lemma_threshold_is_not_ink(w: int, h: int, px: Seq<u8>, t: u8, x: int, y: int)
    requires
        0 <= x < w,
        0 <= y < h,
        px[y * w + x] == t,
    ensures
        !is_ink(w, h, px, t, x, y),
{
}

/// An image of odd width renders as the image one column wider whose last
/// column is all intensity 0.
pub proof fn lemma_width_padding(w: int, h: int, px: Seq<u8>, wider: Seq<u8>, t: u8)
    requires
        w >= 1,
        w % 2 == 1,
        h >= 0,
        px.len() == w * h,
        wider.len() == (w + 1) * h,
        forall|x: int, y: int| 0 <= x < w && 0 <= y < h ==> #[trigger] wider[y * (w + 1) + x] == px[y * w + x],
        forall|y: int| 0 <= y < h ==> #[trigger] wider[y * (w + 1) + w] == 0,
    ensures
        braille_grid(w, h, px, t) == braille_grid(w + 1, h, wider, t),
{
    assert(cols(w) == cols(w + 1));
    assert forall|x: int, y: int| #[trigger] is_ink(w, h, px, t, x, y) == is_ink(w + 1, h, wider, t, x, y) by {
        if 0 <= y < h && x == w {
            assert(wider[y * (w + 1) + w] == 0);
        }
    }
    assert forall|x: int, y: int| #[trigger] contribution(w, h, px, t, x, y) == contribution(w + 1, h, wider, t, x, y) by {
        assert(is_ink(w, h, px, t, x, y) == is_ink(w + 1, h, wider, t, x, y));
    }
    assert(braille_grid(w, h, px, t) =~= braille_grid(w + 1, h, wider, t));
}

/// When no intensity is above the threshold, every cell of the rendering is
/// the blank pattern.
pub proof fn lemma_no_ink_is_blank(w: int, h: int, px: Seq<u8>, t: u8)
    requires
        w >= 0,
        h >= 0,
        px.len() == w * h,
        forall|i: int| 0 <= i < px.len() ==> #[trigger] px[i] <= t,
    ensures
        forall|i: int| 0 <= i < grid_len(w, h) ==> #[trigger] braille_grid(w, h, px, t)[i] == (
        if i % line_len(w) == cols(w) {
            LINE_BREAK
        } else {
            BLANK_CELL
        }),
{
    assert forall|x: int, y: int| !#[trigger] is_ink(w, h, px, t, x, y) by {
        if 0 <= x < w && 0 <= y < h {
            assert(0 <= y * w + x < w * h) by (nonlinear_arith)
                requires 0 <= x < w, 0 <= y < h;
            assert(px[y * w + x] <= t);
        }
    }
}

/// The intensities that `rendering` thresholds under `method`.
pub open spec fn binarized(img: SourceImage, method: ThresholdMethod) -> Seq<u8> {
    match method {
        ThresholdMethod::Fixed(_) => img.pixels@,
        ThresholdMethod::Adaptive(radius) => adaptive_of(
            img.width as nat,
            img.height as nat,
            img.pixels@,
            radius as nat,
        ),
    }
}

/// The threshold that `rendering` applies under `method`.
pub open spec fn level(method: ThresholdMethod) -> u8 {
    match method {
        ThresholdMethod::Fixed(t) => t,
        ThresholdMethod::Adaptive(_) => crate::options::ADAPTIVE_THRESHOLD,
    }
}

/// In a text whose line breaks stand exactly at the last position of each
/// line of `ln` characters, the first `n` characters hold `n / ln` of them.
proof fn lemma_breaks_in_prefix(text: Seq<char>, ln: int, n: int)
    requires
        ln >= 1,
        0 <= n <= text.len(),
        forall|i: int| 0 <= i < text.len() ==> (#[trigger] text[i] == '\n' <==> i % ln == ln - 1),
    ensures
        text.take(n).filter(|ch: char| ch == '\n').len() == n / ln,
    decreases n,
{
    reveal(Seq::filter);
    if n > 0 {
        let m = n - 1;
        lemma_breaks_in_prefix(text, ln, m);
        assert(text.take(n).drop_last() =~= text.take(m));
        assert(text.take(n).last() == text[m]);
        lemma_fundamental_div_mod(m, ln);
        let q = m / ln;
        let k = m % ln;
        if k == ln - 1 {
            assert(n == (q + 1) * ln + 0) by (nonlinear_arith)
                requires m == ln * q + k, k == ln - 1, n == m + 1;
            lemma_fundamental_div_mod_converse_div(n, ln, q + 1, 0);
        } else {
            assert(n == q * ln + (k + 1)) by (nonlinear_arith)
                requires m == ln * q + k, n == m + 1;
            lemma_fundamental_div_mod_converse_div(n, ln, q, k + 1);
        }
    } else {
        assert(text.take(0).len() == 0);
    }
}

/// The text of an image whose width is even and whose height is a multiple of
/// four has `h / 4` lines, each of `w / 2` braille characters (U+2800 to
/// U+28FF) followed by one line break, and ends with a line break.
pub proof fn lemma_text_lines(text: Seq<char>, img: SourceImage, method: ThresholdMethod)
    requires
        img.width % 2 == 0,
        img.height % 4 == 0,
        spells(text, rendering(img, method)),
    ensures
        text.len() == (img.height / 4) * (img.width / 2 + 1),
        forall|l: int|
            0 <= l < img.height / 4 ==> #[trigger] text[l * (img.width / 2 + 1) + img.width / 2] == '\n',
        forall|l: int, c: int|
            0 <= l < img.height / 4 && 0 <= c < img.width / 2 ==> 0x2800 <= #[trigger] text[l * (img.width / 2 + 1) + c] as int <= 0x28FF,
        img.height > 0 ==> text.last() == '\n',
        text.filter(|ch: char| ch == '\n').len() == img.height / 4,
{
    let w = img.width as int;
    let h = img.height as int;
    let px = binarized(img, method);
    let t = level(method);
    assert(rendering(img, method) == braille_grid(w, h, px, t));
    lemma_grid_shape(w, h, px, t);
    assert forall|l: int| 0 <= l < h / 4 implies #[trigger] text[l * (w / 2 + 1) + w / 2] == '\n' by {
        assert(0 <= l * (w / 2 + 1) + w / 2 < (h / 4) * (w / 2 + 1)) by (nonlinear_arith)
            requires 0 <= l < h / 4, w >= 0;
        assert(braille_grid(w, h, px, t)[l * (w / 2 + 1) + w / 2] == LINE_BREAK);
    }
    assert forall|l: int, c: int| 0 <= l < h / 4 && 0 <= c < w / 2 implies
        0x2800 <= #[trigger] text[l * (w / 2 + 1) + c] as int <= 0x28FF by {
        assert(0 <= l * (w / 2 + 1) + c < (h / 4) * (w / 2 + 1)) by (nonlinear_arith)
            requires 0 <= l < h / 4, 0 <= c < w / 2;
        assert(braille_grid(w, h, px, t)[l * (w / 2 + 1) + c] <= BLANK_CELL + 0xFF);
    }
    let ln = w / 2 + 1;
    assert(line_len(w) == ln && cols(w) == w / 2);
    assert forall|i: int| 0 <= i < text.len() implies (#[trigger] text[i] == '\n' <==> i % ln == ln - 1) by {
        lemma_grid_codes(w, h, px, t);
        assert(is_output_code(braille_grid(w, h, px, t)[i]));
        assert('\n' as int == 10);
        if i % ln != ln - 1 {
            assert(text[i] as int >= 0x2800);
        }
    }
    lemma_breaks_in_prefix(text, ln, text.len() as int);
    assert(text.take(text.len() as int) =~= text);
    assert(text.len() as int / ln == h / 4) by (nonlinear_arith)
        requires text.len() == (h / 4) * ln, ln >= 1, h >= 0;
    if h > 0 {
        let l = h / 4 - 1;
        assert(l * (w / 2 + 1) + w / 2 == text.len() - 1) by (nonlinear_arith)
            requires l == h / 4 - 1, text.len() == (h / 4) * (w / 2 + 1);
        assert(text[l * (w / 2 + 1) + w / 2] == '\n');
    }
}

/// Under a fixed threshold, a cell all eight of whose pixels lie in the image
/// above the threshold is the character U+28FF in the text.
pub proof fn lemma_text_full_cell(text: Seq<char>, img: SourceImage, t: u8, r: int, c: int)
    requires
        spells(text, rendering(img, ThresholdMethod::Fixed(t))),
        0 <= r,
        0 <= c,
        2 * c + 1 < img.width,
        4 * r + 3 < img.height,
        forall|x: int, y: int|
            2 * c <= x < 2 * c + 2 && 4 * r <= y < 4 * r + 4 ==> #[trigger] is_ink(
                img.width as int,
                img.height as int,
                img.pixels@,
                t,
                x,
                y,
            ),
    ensures
        text[r * line_len(img.width as int) + c] as int == 0x28FF,
{
    let w = img.width as int;
    let h = img.height as int;
    lemma_full_cell(w, h, img.pixels@, t, r, c);
    lemma_cell_index(w, h, r, c);
}

/// The dots of a cell are distinct bits: one that is absent from the sum of
/// the others and its own zero term stays clear.
proof fn lemma_absent_dot(a0: u32, a1: u32, a2: u32, a3: u32, a4: u32, a5: u32, a6: u32, a7: u32) by (bit_vector)
    requires
        a0 == 0 || a0 == 0x08,
        a1 == 0 || a1 == 0x01,
        a2 == 0 || a2 == 0x10,
        a3 == 0 || a3 == 0x02,
        a4 == 0 || a4 == 0x20,
        a5 == 0 || a5 == 0x04,
        a6 == 0 || a6 == 0x80,
        a7 == 0 || a7 == 0x40,
    ensures
        a0 == 0 ==> ((a0 + a1 + a2 + a3 + a4 + a5 + a6 + a7) as u32) & 0x08 == 0,
        a1 == 0 ==> ((a0 + a1 + a2 + a3 + a4 + a5 + a6 + a7) as u32) & 0x01 == 0,
        a2 == 0 ==> ((a0 + a1 + a2 + a3 + a4 + a5 + a6 + a7) as u32) & 0x10 == 0,
        a3 == 0 ==> ((a0 + a1 + a2 + a3 + a4 + a5 + a6 + a7) as u32) & 0x02 == 0,
        a4 == 0 ==> ((a0 + a1 + a2 + a3 + a4 + a5 + a6 + a7) as u32) & 0x20 == 0,
        a5 == 0 ==> ((a0 + a1 + a2 + a3 + a4 + a5 + a6 + a7) as u32) & 0x04 == 0,
        a6 == 0 ==> ((a0 + a1 + a2 + a3 + a4 + a5 + a6 + a7) as u32) & 0x80 == 0,
        a7 == 0 ==> ((a0 + a1 + a2 + a3 + a4 + a5 + a6 + a7) as u32) & 0x40 == 0,
{
}

/// Under a fixed threshold, a pixel whose intensity equals the threshold sets
/// no dot: its bit is clear in its cell's character.
pub proof fn lemma_text_threshold_pixel(text: Seq<char>, img: SourceImage, t: u8, x: int, y: int)
    requires
        img.wf(),
        spells(text, rendering(img, ThresholdMethod::Fixed(t))),
        0 <= x < img.width,
        0 <= y < img.height,
        img.pixels@[y * img.width + x] == t,
    ensures
        ((text[(y / 4) * line_len(img.width as int) + x / 2] as int - BLANK_CELL) as u32) & dot_bit(y % 4, x % 2 == 0) == 0,
{
    let w = img.width as int;
    let h = img.height as int;
    let px = img.pixels@;
    let r = y / 4;
    let c = x / 2;
    lemma_cell_index(w, h, r, c);
    lemma_threshold_is_not_ink(w, h, px, t, x, y);
    let a0 = contribution(w, h, px, t, 2 * c, 4 * r) as u32;
    let a1 = contribution(w, h, px, t, 2 * c + 1, 4 * r) as u32;
    let a2 = contribution(w, h, px, t, 2 * c, 4 * r + 1) as u32;
    let a3 = contribution(w, h, px, t, 2 * c + 1, 4 * r + 1) as u32;
    let a4 = contribution(w, h, px, t, 2 * c, 4 * r + 2) as u32;
    let a5 = contribution(w, h, px, t, 2 * c + 1, 4 * r + 2) as u32;
    let a6 = contribution(w, h, px, t, 2 * c, 4 * r + 3) as u32;
    let a7 = contribution(w, h, px, t, 2 * c + 1, 4 * r + 3) as u32;
    assert((2 * c) % 2 == 0 && (2 * c + 1) % 2 == 1);
    assert((4 * r) % 4 == 0 && (4 * r + 1) % 4 == 1 && (4 * r + 2) % 4 == 2 && (4 * r + 3) % 4 == 3);
    assert(x == 2 * c + x % 2 && y == 4 * r + y % 4);
    lemma_absent_dot(a0, a1, a2, a3, a4, a5, a6, a7);
    assert(cell_bits(w, h, px, t, r, c) == a0 + a1 + a2 + a3 + a4 + a5 + a6 + a7);
    assert(text[r * line_len(w) + c] as int - BLANK_CELL == cell_bits(w, h, px, t, r, c));
}

} // verus!
