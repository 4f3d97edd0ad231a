//! Mapping pixel luminance onto a fixed palette of glyphs, and laying the
//! glyphs out as rows of text.
use vstd::arithmetic::div_mod::{lemma_div_is_ordered, lemma_mod_multiples_vanish, lemma_small_mod};
use vstd::prelude::*;

verus! {

/// Number of glyphs in the palette.
pub const PALETTE_LEN: usize = 7;

/// The palette, from darkest to lightest.
pub open spec fn palette() -> Seq<char> {
    seq![' ', '.', '/', '*', '#', '$', '@']
}

/// Perceptual luminance scaled by 100: `30 R + 59 G + 11 B`, in `0..=25500`.
pub open spec fn luma100(r: u8, g: u8, b: u8) -> int {
    30 * r + 59 * g + 11 * b
}

/// `round(luma / 255 * 6)`, halves rounded up: with `luma = luma100 / 100`
/// this is `floor((luma100 + 2125) / 4250)`.
pub open spec fn glyph_index_of(r: u8, g: u8, b: u8) -> int {
    (luma100(r, g, b) + 2125) / 4250
}

/// The text for one pixel: its glyph followed by a space.
pub open spec fn cell_of(pixels: Seq<u8>, i: int) -> Seq<char> {
    seq![palette()[glyph_index_of(pixels[3 * i], pixels[3 * i + 1], pixels[3 * i + 2])], ' ']
}

/// The first `n` cells of row `y` of an image `width` pixels wide.
pub open spec fn row_prefix(pixels: Seq<u8>, width: nat, y: nat, n: nat) -> Seq<char>
    decreases n,
{
    if n == 0 {
        Seq::empty()
    } else {
        row_prefix(pixels, width, y, (n - 1) as nat) + cell_of(pixels, y * width + n - 1)
    }
}

/// The first `rows` rows of the art, separated by line breaks.
pub open spec fn art_rows(pixels: Seq<u8>, width: nat, rows: nat) -> Seq<char>
    decreases rows,
{
    if rows == 0 {
        Seq::empty()
    } else if rows == 1 {
        row_prefix(pixels, width, 0, width)
    } else {
        art_rows(pixels, width, (rows - 1) as nat) + seq!['\n'] + row_prefix(
            pixels,
            width,
            (rows - 1) as nat,
            width,
        )
    }
}

/// The ASCII art of a row-major RGB image of `width` x `height` pixels.
pub open spec fn ascii_art(pixels: Seq<u8>, width: nat, height: nat) -> Seq<char> {
    art_rows(pixels, width, height)
}

/// Text laid out as `rows` rows of `cols` cells of two characters each, rows
/// separated by one line break: its length is `rows * (2 cols + 1) - 1` and it
/// holds a line break exactly after each full row but the last.
pub open spec fn grid_shape(art: Seq<char>, cols: nat, rows: nat) -> bool {
    &&& art.len() == rows * (2 * cols + 1) - 1
    &&& forall|p: int|
        0 <= p < art.len() ==> (#[trigger] art[p] == '\n' <==> (p + 1) % (2 * cols + 1) as int == 0)
}

/// Every pixel gets a glyph of the palette.
pub proof fn lemma_glyph_index_in_palette(r: u8, g: u8, b: u8)
    ensures
        0 <= glyph_index_of(r, g, b) < palette().len(),
        palette()[glyph_index_of(r, g, b)] != '\n',
{
}

/// Brightening any channels of a pixel never moves its glyph towards the dark
/// end of the palette.
pub proof fn lemma_glyph_index_monotonic(r1: u8, g1: u8, b1: u8, r2: u8, g2: u8, b2: u8)
    requires
        r1 <= r2,
        g1 <= g2,
        b1 <= b2,
    ensures
        glyph_index_of(r1, g1, b1) <= glyph_index_of(r2, g2, b2),
{
    lemma_div_is_ordered(luma100(r1, g1, b1) + 2125, luma100(r2, g2, b2) + 2125, 4250);
}

proof fn lemma_row_prefix_shape(pixels: Seq<u8>, width: nat, y: nat, n: nat)
    requires
        pixels.len() >= 3 * (y * width + n),
    ensures
        row_prefix(pixels, width, y, n).len() == 2 * n,
        forall|k: int| 0 <= k < 2 * n ==> #[trigger] row_prefix(pixels, width, y, n)[k] != '\n',
    decreases n,
{
    if n > 0 {
        let m = (n - 1) as nat;
        lemma_row_prefix_shape(pixels, width, y, m);
        let i: int = (y * width + m) as int;
        lemma_glyph_index_in_palette(pixels[3 * i], pixels[3 * i + 1], pixels[3 * i + 2]);
        let prev = row_prefix(pixels, width, y, m);
        let cur = row_prefix(pixels, width, y, n);
        assert forall|k: int| 0 <= k < 2 * n implies #[trigger] cur[k] != '\n' by {
            if k < 2 * m {
                assert(cur[k] == prev[k]);
            }
        }
    }
}

proof fn lemma_art_rows_shape(pixels: Seq<u8>, width: nat, rows: nat)
    requires
        width > 0,
        rows > 0,
        pixels.len() >= width * rows * 3,
    ensures
        grid_shape(art_rows(pixels, width, rows), width, rows),
    decreases rows,
{
    let c: int = (2 * width + 1) as int;
    let last = (rows - 1) as nat;
    assert(pixels.len() >= 3 * (last * width + width)) by (nonlinear_arith)
        requires pixels.len() >= width * rows * 3, last == rows - 1;
    lemma_row_prefix_shape(pixels, width, last, width);
    let row = row_prefix(pixels, width, last, width);
    let art = art_rows(pixels, width, rows);
    if rows == 1 {
        assert forall|p: int| 0 <= p < art.len() implies (#[trigger] art[p] == '\n' <==> (p + 1)
            % c == 0) by {
            lemma_small_mod((p + 1) as nat, c as nat);
        }
    } else {
        assert(pixels.len() >= width * last * 3) by (nonlinear_arith)
            requires pixels.len() >= width * rows * 3, last == rows - 1;
        let prev = art_rows(pixels, width, last);
        lemma_art_rows_shape(pixels, width, last);
        let l = prev.len();
        assert(l == last * c - 1);
        assert(rows * c - 1 == last * c - 1 + 1 + 2 * width) by (nonlinear_arith)
            requires last == rows - 1, c == 2 * width + 1;
        assert forall|p: int| 0 <= p < art.len() implies (#[trigger] art[p] == '\n' <==> (p + 1)
            % c == 0) by {
            if p < l {
                assert(art[p] == prev[p]);
            } else if p == l {
                lemma_mod_multiples_vanish(last as int, 0, c as int);
                assert(c * last + 0 == p + 1) by (nonlinear_arith)
                    requires p == l, l == last * c - 1;
            } else {
                let k = p - l - 1;
                assert(art[p] == row[k]);
                lemma_mod_multiples_vanish(last as int, k + 1, c as int);
                lemma_small_mod((k + 1) as nat, c as nat);
                assert(c * last + (k + 1) == p + 1) by (nonlinear_arith)
                    requires k == p - l - 1, l == last * c - 1;
            }
        }
    }
}

/// Shrinking a `width` x `height` image by `divisor`, no larger than either
/// side, and laying it out gives `height / divisor` rows of `width / divisor`
/// cells each.
pub proof fn lemma_rows_and_columns(resized: Seq<u8>, width: nat, height: nat, divisor: nat)
    requires
        0 < divisor <= width,
        divisor <= height,
        resized.len() == (width / divisor) * (height / divisor) * 3,
    ensures
        grid_shape(
            ascii_art(resized, width / divisor, height / divisor),
            width / divisor,
            height / divisor,
        ),
{
    lemma_div_is_ordered(divisor as int, width as int, divisor as int);
    lemma_div_is_ordered(divisor as int, height as int, divisor as int);
    lemma_art_rows_shape(resized, width / divisor, height / divisor);
}

/// Index into the palette of the glyph for one pixel.
pub fn glyph_index(r: u8, g: u8, b: u8) -> (idx: usize)
    ensures
        idx == glyph_index_of(r, g, b),
        idx < PALETTE_LEN,
{
    let luma: u32 = 30 * (r as u32) + 59 * (g as u32) + 11 * (b as u32);
    ((luma + 2125) / 4250) as usize
}

/// The glyph at `idx` in the palette.
pub fn palette_glyph(idx: usize) -> (c: char)
    requires
        idx < PALETTE_LEN,
    ensures
        c == palette()[idx as int],
{
    let glyphs: [char; 7] = [' ', '.', '/', '*', '#', '$', '@'];
    glyphs[idx]
}

/// The cell text for the glyph at `idx`: the glyph and one space.
fn cell_text(idx: usize) -> (s: &'static str)
    requires
        idx < PALETTE_LEN,
    ensures
        s@ == seq![palette()[idx as int], ' '],
{
    if idx == 0 {
        proof { reveal_strlit("  "); }
        "  "
    } else if idx == 1 {
        proof { reveal_strlit(". "); }
        ". "
    } else if idx == 2 {
        proof { reveal_strlit("/ "); }
        "/ "
    } else if idx == 3 {
        proof { reveal_strlit("* "); }
        "* "
    } else if idx == 4 {
        proof { reveal_strlit("# "); }
        "# "
    } else if idx == 5 {
        proof { reveal_strlit("$ "); }
        "$ "
    } else {
        proof { reveal_strlit("@ "); }
        "@ "
    }
}

/// Lays out a row-major RGB image (three bytes a pixel) as ASCII art: one
/// cell (glyph and space) a pixel, a line break between rows.
pub fn render_pixels(pixels: &Vec<u8>, width: u32, height: u32) -> (art: String)
    requires
        pixels@.len() == width * height * 3,
    ensures
        art@ == ascii_art(pixels@, width as nat, height as nat),
{
    let mut art = String::new();
    let mut y: u32 = 0;
    while y < height
        invariant
            pixels@.len() == width * height * 3,
            y <= height,
            art@ == art_rows(pixels@, width as nat, y as nat),
        decreases height - y,
    {
        if y > 0 {
            proof { reveal_strlit("\n"); }
            art.append("\n");
        }
        let ghost start = art@;
        let mut x: u32 = 0;
        while x < width
            invariant
                pixels@.len() == width * height * 3,
                y < height,
                x <= width,
                art@ == start + row_prefix(pixels@, width as nat, y as nat, x as nat),
            decreases width - x,
        {
            proof {
                assert(3 * ((y as int) * width + x) + 2 < (width as int) * height * 3)
                    by (nonlinear_arith)
                    requires y < height, x < width;
            }
            assert(pixels@.len() == pixels.len());
            let i: usize = (y as usize) * (width as usize) + (x as usize);
            let idx = glyph_index(pixels[3 * i], pixels[3 * i + 1], pixels[3 * i + 2]);
            art.append(cell_text(idx));
            x = x + 1;
            proof {
                assert(art@ =~= start + row_prefix(pixels@, width as nat, y as nat, x as nat));
            }
        }
        y = y + 1;
    }
    art
}

} // verus!
