//! Drawing text into the framebuffer, and choosing a font backend by the
//! requested pixel height.
use vstd::prelude::*;
use crate::psf::{glyph_bit, Font, FontView};
use crate::ssd1305::{
    frame_set_pixel, in_bounds, lemma_pixel_after_set, pixel_on, Dims, Ssd1305, FRAME_LEN, WIDTH,
};
use vstd::arithmetic::div_mod::{lemma_fundamental_div_mod, lemma_fundamental_div_mod_converse};

verus! {

/// Where and how tall a text is drawn: its top-left corner and its pixel height.
#[derive(Debug, Clone, Copy, PartialEq, Eq, Structural)]
pub struct Params {
    pub height: usize,
    pub x: i32,
    pub y: i32,
}

/// The heights a font backend can draw.
#[derive(Debug, Clone, Copy, PartialEq, Eq, Structural)]
pub enum TextSize {
    /// Only its native height (a bitmap font).
    Exactly(usize),
    /// Any height (an outline font).
    Any,
}

impl TextSize {
    /// Whether a backend of these sizes draws text `height` pixels tall.
    pub open spec fn supports(self, height: usize) -> bool {
        match self {
            TextSize::Exactly(h) => h == height,
            TextSize::Any => true,
        }
    }

    /// Whether a backend of these sizes draws text `height` pixels tall.
    pub fn renders_text_size(&self, height: usize) -> (r: bool)
        ensures
            r == self.supports(height),
    {
        match self {
            TextSize::Exactly(h) => *h == height,
            TextSize::Any => true,
        }
    }
}

/// Picks, among backends of the given sizes in order of preference, the
/// first that can draw text `height` pixels tall.
pub fn select_renderer(sizes: &Vec<TextSize>, height: usize) -> (r: Option<usize>)
    ensures
        match r {
            Some(i) => {
                &&& i < sizes@.len()
                &&& sizes@[i as int].supports(height)
                &&& forall|j: int| 0 <= j < i ==> !#[trigger] sizes@[j].supports(height)
            },
            None => forall|j: int| 0 <= j < sizes@.len() ==> !#[trigger] sizes@[j].supports(height),
        },
{
    let mut i: usize = 0;
    while i < sizes.len()
        invariant
            i <= sizes@.len(),
            forall|j: int| 0 <= j < i ==> !#[trigger] sizes@[j].supports(height),
        decreases sizes@.len() - i,
    {
        if sizes[i].renders_text_size(height) {
            return Some(i);
        }
        i = i + 1;
    }
    None
}

/// `frame` after columns `0 .. ncols` of row `row` of glyph `code` are drawn
/// with the glyph's top-left corner at `(ox, oy)`: each pixel lit or darkened
/// as the glyph has it, those off the panel dropped.
pub open spec fn draw_row(
    frame: Seq<u8>,
    f: FontView,
    code: int,
    ox: int,
    oy: int,
    row: int,
    ncols: nat,
) -> Seq<u8>
    decreases ncols,
{
    if ncols == 0 {
        frame
    } else {
        let col = ncols - 1;
        frame_set_pixel(
            draw_row(frame, f, code, ox, oy, row, col as nat),
            ox + col,
            oy + row,
            glyph_bit(f, code, row, col) == 1,
        )
    }
}

/// `frame` after rows `0 .. nrows` of glyph `code` are drawn at `(ox, oy)`.
pub open spec fn draw_rows(frame: Seq<u8>, f: FontView, code: int, ox: int, oy: int, nrows: nat) -> Seq<u8>
    decreases nrows,
{
    if nrows == 0 {
        frame
    } else {
        draw_row(
            draw_rows(frame, f, code, ox, oy, (nrows - 1) as nat),
            f,
            code,
            ox,
            oy,
            nrows - 1,
            f.width,
        )
    }
}

/// `frame` after the glyph of `code` is drawn at `(ox, oy)`; a code the font
/// has no glyph for draws nothing.
pub open spec fn draw_glyph(frame: Seq<u8>, f: FontView, code: int, ox: int, oy: int) -> Seq<u8> {
    if 0 <= code < f.glyphs.len() {
        draw_rows(frame, f, code, ox, oy, f.height)
    } else {
        frame
    }
}

/// `frame` after `text` is drawn left to right from `(ox, oy)`, each
/// character in a cell of the font's width.
pub open spec fn draw_text(frame: Seq<u8>, f: FontView, text: Seq<char>, ox: int, oy: int) -> Seq<u8>
    decreases text.len(),
{
    if text.len() == 0 {
        frame
    } else {
        draw_glyph(
            draw_text(frame, f, text.drop_last(), ox, oy),
            f,
            text.last() as u32 as int,
            ox + (text.len() - 1) * f.width,
            oy,
        )
    }
}

/// Size of `text` drawn in font `f` at a requested pixel height: as wide as
/// its cells (`usize::MAX` where that does not fit) and as tall as requested,
/// whatever the glyphs themselves cover.
pub open spec fn text_dims(f: FontView, text: Seq<char>, height: usize) -> Dims {
    Dims {
        width: if text.len() * f.width <= usize::MAX {
            (text.len() * f.width) as usize
        } else {
            usize::MAX
        },
        height,
    }
}

/// The empty text is zero pixels wide and as tall as requested, in any font.
pub proof fn lemma_empty_text_dims(f: FontView, height: usize)
    ensures
        text_dims(f, Seq::empty(), height) == (Dims { width: 0, height }),
{
}

/// What drawing `text` from `(ox, oy)` puts at pixel `(px, py)`: where the
/// pixel lies in the cell of a character that has a glyph, that glyph's bit
/// at the pixel's place in the cell; elsewhere nothing.
pub open spec fn text_pixel(f: FontView, text: Seq<char>, ox: int, oy: int, px: int, py: int) -> Option<bool> {
    if f.width > 0 && px >= ox && (px - ox) / (f.width as int) < text.len() && oy <= py < oy
        + f.height {
        let k = (px - ox) / (f.width as int);
        let code = text[k] as u32 as int;
        if 0 <= code < f.glyphs.len() {
            Some(glyph_bit(f, code, py - oy, (px - ox) % (f.width as int)) == 1)
        } else {
            None
        }
    } else {
        None
    }
}

proof fn lemma_draw_row_pixels(
    frame: Seq<u8>,
    f: FontView,
    code: int,
    ox: int,
    oy: int,
    row: int,
    ncols: nat,
    px: int,
    py: int,
)
    requires
        frame.len() == FRAME_LEN,
        in_bounds(px, py),
    ensures
        draw_row(frame, f, code, ox, oy, row, ncols).len() == FRAME_LEN,
        pixel_on(draw_row(frame, f, code, ox, oy, row, ncols), px, py) == if py == oy + row && ox
            <= px < ox + ncols {
            glyph_bit(f, code, row, px - ox) == 1
        } else {
            pixel_on(frame, px, py)
        },
    decreases ncols,
{
    if ncols > 0 {
        let col = ncols - 1;
        lemma_draw_row_pixels(frame, f, code, ox, oy, row, col as nat, px, py);
        lemma_pixel_after_set(
            draw_row(frame, f, code, ox, oy, row, col as nat),
            ox + col,
            oy + row,
            glyph_bit(f, code, row, col) == 1,
            px,
            py,
        );
    }
}

proof fn lemma_draw_rows_pixels(
    frame: Seq<u8>,
    f: FontView,
    code: int,
    ox: int,
    oy: int,
    nrows: nat,
    px: int,
    py: int,
)
    requires
        frame.len() == FRAME_LEN,
        in_bounds(px, py),
    ensures
        draw_rows(frame, f, code, ox, oy, nrows).len() == FRAME_LEN,
        pixel_on(draw_rows(frame, f, code, ox, oy, nrows), px, py) == if oy <= py < oy + nrows
            && ox <= px < ox + f.width {
            glyph_bit(f, code, py - oy, px - ox) == 1
        } else {
            pixel_on(frame, px, py)
        },
    decreases nrows,
{
    if nrows > 0 {
        lemma_draw_rows_pixels(frame, f, code, ox, oy, (nrows - 1) as nat, px, py);
        lemma_draw_row_pixels(
            draw_rows(frame, f, code, ox, oy, (nrows - 1) as nat),
            f,
            code,
            ox,
            oy,
            nrows - 1,
            f.width,
            px,
            py,
        );
    }
}

/// Drawing text changes the framebuffer pixel by pixel as `text_pixel` says:
/// each panel pixel in the cell of a character with a glyph reads that
/// glyph's bit, and every other panel pixel reads as before.
pub proof fn lemma_draw_text_pixels(
    frame: Seq<u8>,
    f: FontView,
    text: Seq<char>,
    ox: int,
    oy: int,
    px: int,
    py: int,
)
    requires
        frame.len() == FRAME_LEN,
        in_bounds(px, py),
    ensures
        draw_text(frame, f, text, ox, oy).len() == FRAME_LEN,
        pixel_on(draw_text(frame, f, text, ox, oy), px, py) == match text_pixel(
            f,
            text,
            ox,
            oy,
            px,
            py,
        ) {
            Some(b) => b,
            None => pixel_on(frame, px, py),
        },
    decreases text.len(),
{
    if text.len() > 0 {
        let n = text.len() as int;
        let prev = text.drop_last();
        let w = f.width as int;
        let c = ox + (n - 1) * w;
        let code = text.last() as u32 as int;
        lemma_draw_text_pixels(frame, f, prev, ox, oy, px, py);
        let before = draw_text(frame, f, prev, ox, oy);
        if 0 <= code < f.glyphs.len() {
            lemma_draw_rows_pixels(before, f, code, c, oy, f.height, px, py);
        }
        assert(0 <= (n - 1) * w) by (nonlinear_arith)
            requires
                n >= 1,
                w >= 0,
        ;
        let d = px - ox;
        if w > 0 && d >= 0 {
            lemma_fundamental_div_mod(d, w);
            let k = d / w;
            let r = d % w;
            assert(0 <= r < w);
            assert(d == k * w + r) by (nonlinear_arith)
                requires
                    d == w * k + r,
            ;
            if c <= px < c + w {
                lemma_fundamental_div_mod_converse(d, w, n - 1, px - c);
                assert(k == n - 1);
                assert(text[k] == text.last());
            } else {
                if k == n - 1 {
                    assert(false);
                }
                if k < n - 1 {
                    assert(prev[k] == text[k]);
                }
            }
        }
    }
}

/// A row drawn right of the panel leaves the frame as it was.
proof fn lemma_row_off_panel(frame: Seq<u8>, f: FontView, code: int, ox: int, oy: int, row: int, ncols: nat)
    requires
        ox >= WIDTH,
    ensures
        draw_row(frame, f, code, ox, oy, row, ncols) == frame,
    decreases ncols,
{
    if ncols > 0 {
        lemma_row_off_panel(frame, f, code, ox, oy, row, (ncols - 1) as nat);
        assert(!in_bounds(ox + ncols - 1, oy + row));
    }
}

/// A glyph drawn right of the panel leaves the frame as it was.
proof fn lemma_glyph_off_panel(frame: Seq<u8>, f: FontView, code: int, ox: int, oy: int, nrows: nat)
    requires
        ox >= WIDTH,
    ensures
        draw_rows(frame, f, code, ox, oy, nrows) == frame,
    decreases nrows,
{
    if nrows > 0 {
        lemma_glyph_off_panel(frame, f, code, ox, oy, (nrows - 1) as nat);
        lemma_row_off_panel(frame, f, code, ox, oy, nrows - 1, f.width);
    }
}

/// The characters of `text`, in order.
fn chars_of(text: &str) -> (r: Vec<char>)
    ensures
        r@ == text@,
{
    let mut v: Vec<char> = Vec::new();
    for c in it: text.chars()
        invariant
            v@ == it.seq().take(it.index()),
    {
        v.push(c);
    }
    v
}

impl Font {
    /// Draws the glyph of `code` with its top-left corner at `(ox, oy)`.
    fn draw_glyph_at(&self, data: &mut Ssd1305, code: usize, ox: i64, oy: i64)
        requires
            self.wf(),
            old(data).wf(),
            code < self@.glyphs.len(),
            i32::MIN <= ox < WIDTH,
            i32::MIN <= oy <= i32::MAX,
        ensures
            final(data).wf(),
            final(data)@.frame == draw_rows(
                old(data)@.frame,
                self@,
                code as int,
                ox as int,
                oy as int,
                self@.height,
            ),
            final(data)@.pending == old(data)@.pending,
            final(data)@.begun == old(data)@.begun,
    {
        let h = self.height();
        let w = self.width();
        let mut row: usize = 0;
        while row < h
            invariant
                self.wf(),
                data.wf(),
                code < self@.glyphs.len(),
                i32::MIN <= ox < WIDTH,
                i32::MIN <= oy <= i32::MAX,
                h == self@.height,
                w == self@.width,
                row <= h,
                data@.frame == draw_rows(
                    old(data)@.frame,
                    self@,
                    code as int,
                    ox as int,
                    oy as int,
                    row as nat,
                ),
                data@.pending == old(data)@.pending,
                data@.begun == old(data)@.begun,
            decreases h - row,
        {
            let ghost row_start = data@.frame;
            let mut col: usize = 0;
            while col < w
                invariant
                    self.wf(),
                    data.wf(),
                    code < self@.glyphs.len(),
                    i32::MIN <= ox < WIDTH,
                    i32::MIN <= oy <= i32::MAX,
                    h == self@.height,
                    w == self@.width,
                    row < h,
                    col <= w,
                    data@.frame == draw_row(
                        row_start,
                        self@,
                        code as int,
                        ox as int,
                        oy as int,
                        row as int,
                        col as nat,
                    ),
                    data@.pending == old(data)@.pending,
                    data@.begun == old(data)@.begun,
                decreases w - col,
            {
                let bit = self.pixel(code, row, col);
                data.plot(ox + col as i64, oy + row as i64, bit == 1);
                col = col + 1;
            }
            row = row + 1;
        }
    }

    /// Draws `text` left to right from `(params.x, params.y)`, one glyph
    /// cell per character: each cell pixel on the panel is lit or darkened as
    /// the glyph has it, the rest dropped, and a character the font has no
    /// glyph for leaves its cell as it was. The result is as wide as the
    /// cells (`usize::MAX` where that does not fit) and `params.height` tall.
    pub fn render_text(&self, data: &mut Ssd1305, params: &Params, text: &str) -> (r: Dims)
        requires
            self.wf(),
            old(data).wf(),
        ensures
            final(data).wf(),
            final(data)@.frame == draw_text(
                old(data)@.frame,
                self@,
                text@,
                params.x as int,
                params.y as int,
            ),
            final(data)@.pending == old(data)@.pending,
            final(data)@.begun == old(data)@.begun,
            r == text_dims(self@, text@, params.height),
    {
        let chars = chars_of(text);
        let n = chars.len();
        let w = self.width() as i64;
        let x0 = params.x as i64;
        let y0 = params.y as i64;
        let mut cx: i64 = x0;
        let mut k: usize = 0;
        while k < n
            invariant
                self.wf(),
                data.wf(),
                n == chars@.len(),
                chars@ == text@,
                w == self@.width,
                x0 == params.x,
                y0 == params.y,
                k <= n,
                (cx < WIDTH && cx == x0 + k * w) || (cx >= WIDTH && x0 + k * w >= WIDTH),
                cx >= x0,
                data@.frame == draw_text(
                    old(data)@.frame,
                    self@,
                    chars@.take(k as int),
                    x0 as int,
                    y0 as int,
                ),
                data@.pending == old(data)@.pending,
                data@.begun == old(data)@.begun,
            decreases n - k,
        {
            let code = chars[k] as u32 as usize;
            let ghost before = data@.frame;
            assert(chars@.take(k + 1).drop_last() =~= chars@.take(k as int));
            assert(chars@.take(k + 1).last() == chars@[k as int]);
            assert((k + 1) * w == k * w + w) by (nonlinear_arith);
            if cx < WIDTH as i64 {
                if code < self.size() {
                    self.draw_glyph_at(data, code, cx, y0);
                }
                cx = cx + w;
            } else {
                proof {
                    lemma_glyph_off_panel(
                        before,
                        self@,
                        code as int,
                        x0 + k * w,
                        y0 as int,
                        self@.height,
                    );
                }
            }
            k = k + 1;
        }
        assert(chars@.take(n as int) =~= chars@);
        let width = match n.checked_mul(self.width()) {
            Some(v) => v,
            None => usize::MAX,
        };
        Dims { width, height: params.height }
    }

    /// Whether this font draws text `text_size` pixels tall: only at its own height.
    pub fn renders_text_size(&self, text_size: usize) -> (r: bool)
        ensures
            r == (self@.height == text_size),
    {
        self.height() == text_size
    }

    /// The heights this font draws.
    pub fn text_size(&self) -> (r: TextSize)
        ensures
            r == TextSize::Exactly(self@.height as usize),
    {
        TextSize::Exactly(self.height())
    }
}

} // verus!
