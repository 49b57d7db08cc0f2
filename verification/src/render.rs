//! Laying a text out on a canvas.
//!
//! The text is drawn line by line, each line in a band of its own, and then
//! once more as a whole over the full canvas. This module decides what is
//! drawn where; the glyphs themselves are the rasterizer's work.

use crate::canvas::Canvas;
use crate::color::Color;
use crate::text::{lemma_line_count, lines_of, newline_count, split_lines, views};
use vstd::prelude::*;

verus! {

/// What one draw call says.
pub struct DrawCallView {
    pub text: Seq<char>,
    pub x: u32,
    pub y: u32,
    pub size: u32,
}

/// One piece of text to draw, with its left end at column `x` and its top at
/// row `y`. `size` is the height in pixels to draw it at; the rasterizer
/// stretches it sideways so that it spans the width of the canvas.
#[derive(Debug, PartialEq, Eq)]
pub struct DrawCall {
    pub text: String,
    pub x: u32,
    pub y: u32,
    pub size: u32,
}

impl View for DrawCall {
    type V = DrawCallView;

    open spec fn view(&self) -> DrawCallView {
        DrawCallView { text: self.text@, x: self.x, y: self.y, size: self.size }
    }
}

/// What each draw call of a sequence says.
pub open spec fn call_views(calls: Seq<DrawCall>) -> Seq<DrawCallView> {
    Seq::new(calls.len(), |i: int| calls[i]@)
}

/// A canvas filled with the background colour, and the draw calls that put
/// the text on it in the foreground colour, in the order to make them.
#[derive(Debug, PartialEq, Eq)]
pub struct RenderPlan {
    pub text: String,
    pub canvas: Canvas,
    pub color: Color,
    pub calls: Vec<DrawCall>,
}

/// Whether a plan is the one for drawing `text` in `fg` on a canvas of
/// `width` by `height` filled with `bg`.
pub open spec fn plan_is_for(
    plan: RenderPlan,
    text: Seq<char>,
    fg: Color,
    bg: Color,
    width: u32,
    height: u32,
) -> bool {
    &&& plan.text@ == text
    &&& plan.canvas@.wf()
    &&& plan.canvas@.width == width
    &&& plan.canvas@.height == height
    &&& plan.canvas@.pixels == Seq::new((width * height) as nat, |i: int| bg)
    &&& plan.color == fg
    &&& call_views(plan.calls@) == planned_calls(text, height)
}

/// The height of the band of one line: the height of the canvas divided by
/// the number of lines, rounded down. The rows that this leaves over at the
/// bottom stay unused.
pub open spec fn line_height(height: u32, line_count: nat) -> u32
    recommends
        line_count > 0,
{
    (height as nat / line_count) as u32
}

/// The draw calls for a text on a canvas of the given height: one for each
/// line, from the top down, each at the top of its band and of the band's
/// height; then one for the whole text at the top left, of the height of the
/// canvas. This last call draws over the lines: for a text of one line it
/// repeats the first call, for more lines it lays the whole text over them.
pub open spec fn planned_calls(text: Seq<char>, height: u32) -> Seq<DrawCallView> {
    let lines = lines_of(text);
    let band = line_height(height, lines.len());
    Seq::new(
        lines.len() + 1,
        |i: int|
            if i < lines.len() {
                DrawCallView { text: lines[i], x: 0, y: (i * band) as u32, size: band }
            } else {
                DrawCallView { text: text, x: 0, y: 0, size: height }
            },
    )
}

proof fn lemma_band_fits(height: u32, count: nat, i: nat)
    requires
        i < count,
    ensures
        (i + 1) * line_height(height, count) <= height,
        i * line_height(height, count) + line_height(height, count) == (i + 1) * line_height(
            height,
            count,
        ),
{
    let band = line_height(height, count) as int;
    let h = height as int;
    let c = count as int;
    assert(band * c <= h) by (nonlinear_arith)
        requires
            band == h / c,
            c > 0,
            h >= 0,
    ;
    assert((i + 1) * band <= band * c) by (nonlinear_arith)
        requires
            i + 1 <= c,
            band >= 0,
    ;
    assert(i * band + band == (i + 1) * band) by (nonlinear_arith);
}

/// Plans the picture of a text: fills a canvas of `width` by `height` with
/// the background colour and lists the draw calls that put the text on it.
/// Every text has a plan, the empty one too, and the canvas of the plan has
/// exactly `width * height` pixels.
pub fn emoji_generator(moji: &str, fg: Color, bg: Color, width: u32, height: u32) -> (plan:
    RenderPlan)
    requires
        width * height <= usize::MAX,
    ensures
        plan_is_for(plan, moji@, fg, bg, width, height),
        plan.canvas@.pixels.len() == width * height,
{
    let canvas = Canvas::filled(width, height, bg);
    let lines = split_lines(moji);
    let count: usize = lines.len();
    let band: u32 = if count > height as usize {
        // more lines than rows: no row is left for a band
        0
    } else {
        height / (count as u32)
    };
    assert(band == line_height(height, count as nat)) by {
        if count > height {
            assert(height as nat / count as nat == 0) by (nonlinear_arith)
                requires
                    0 <= height < count,
            ;
        }
    }
    let mut calls: Vec<DrawCall> = Vec::new();
    let mut y: u32 = 0;
    let mut i: usize = 0;
    while i < count
        invariant
            i <= count,
            count == lines@.len(),
            views(lines@) == lines_of(moji@),
            band == line_height(height, count as nat),
            y == i * band,
            calls@.len() == i,
            forall|k: int|
                0 <= k < i ==> (#[trigger] calls@[k])@ == planned_calls(moji@, height)[k],
        decreases count - i,
    {
        proof {
            lemma_band_fits(height, count as nat, i as nat);
        }
        assert(lines@[i as int]@ == views(lines@)[i as int]);
        calls.push(DrawCall { text: lines[i].clone(), x: 0, y, size: band });
        y = y + band;
        i += 1;
    }
    calls.push(DrawCall { text: moji.to_owned(), x: 0, y: 0, size: height });
    assert(call_views(calls@) =~= planned_calls(moji@, height));
    RenderPlan { text: moji.to_owned(), canvas, color: fg, calls }
}

/// A text has one draw call for each line and one for the whole.
pub proof fn lemma_call_count(text: Seq<char>, height: u32)
    ensures
        planned_calls(text, height).len() == newline_count(text) + 2,
{
    lemma_line_count(text);
}

/// The bands of the lines stack from the top of the canvas: each line is
/// drawn at the top of its band, the next band begins where this one ends,
/// and no band reaches below the canvas.
pub proof fn lemma_bands_stack(text: Seq<char>, height: u32, i: int)
    requires
        0 <= i < lines_of(text).len(),
    ensures
        planned_calls(text, height)[i].text == lines_of(text)[i],
        planned_calls(text, height)[i].size == line_height(height, lines_of(text).len()),
        planned_calls(text, height)[i].y == i * planned_calls(text, height)[i].size,
        planned_calls(text, height)[i].y + planned_calls(text, height)[i].size <= height,
        i + 1 < lines_of(text).len() ==> planned_calls(text, height)[i + 1].y == planned_calls(
            text,
            height,
        )[i].y + planned_calls(text, height)[i].size,
{
    let count = lines_of(text).len();
    lemma_band_fits(height, count, i as nat);
    if i + 1 < count {
        lemma_band_fits(height, count, (i + 1) as nat);
    }
}

/// The last draw call repeats the whole text, newlines and all, at the top
/// left and at the full height of the canvas.
pub proof fn lemma_last_call(text: Seq<char>, height: u32)
    ensures
        planned_calls(text, height).last() == (DrawCallView { text, x: 0, y: 0, size: height }),
{
}

} // verus!
