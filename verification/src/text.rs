use crate::config::Config;
use crate::frame::{lemma_render_keeps, render, Frame, FrameBuffer, Sample};
use vstd::arithmetic::div_mod::{
    lemma_div_pos_is_pos, lemma_fundamental_div_mod, lemma_fundamental_div_mod_converse,
};
use vstd::prelude::*;

verus! {

/// Trusted, not proved: `String::push` of the standard library leaves the
/// string holding what it held before, followed by the character.
pub assume_specification[ String::push ](s: &mut String, ch: char)
    ensures
        final(s)@ == old(s)@.push(ch),
;

/// The picture as text: each row's glyphs, then a line break, row after row.
pub open spec fn frame_text(frame: Frame) -> Seq<char> {
    let w = frame.width as int;
    let h = frame.height as int;
    Seq::new(
        (h * (w + 1)) as nat,
        |i: int|
            if i % (w + 1) == w {
                '\n'
            } else {
                frame.glyphs[(i / (w + 1)) * w + i % (w + 1)]
            },
    )
}

/// Where a column of a row stands in the text, and back.
pub proof fn lemma_text_position(width: int, row: int, column: int)
    requires
        0 <= row,
        0 <= column <= width,
    ensures
        (row * (width + 1) + column) % (width + 1) == column,
        (row * (width + 1) + column) / (width + 1) == row,
        row * (width + 1) + column + 1 <= (row + 1) * (width + 1),
{
    lemma_fundamental_div_mod_converse(
        row * (width + 1) + column,
        width + 1,
        row,
        column,
    );
    assert((row + 1) * (width + 1) == row * (width + 1) + (width + 1)) by (nonlinear_arith);
}

impl FrameBuffer {
    /// Lays the picture out as text.
    pub fn to_text(&self) -> (text: String)
        requires
            self@.wf(),
            self@.height * (self@.width + 1) <= usize::MAX,
        ensures
            text@ == frame_text(self@),
    {
        let width: usize = self.width();
        let height: usize = self.height();
        let ghost line: int = width + 1;
        let ghost frame: Frame = self@;
        let mut out = String::new();
        let mut y: usize = 0;
        while y < height
            invariant
                y <= height,
                width == frame.width,
                height == frame.height,
                line == width + 1,
                frame == self@,
                frame.wf(),
                out@.len() == y * line,
                forall|i: int| 0 <= i < out@.len() ==> out@[i] == frame_text(frame)[i],
            decreases height - y,
        {
            let mut x: usize = 0;
            while x < width
                invariant
                    y < height,
                    x <= width,
                    width == frame.width,
                    height == frame.height,
                    line == width + 1,
                    frame == self@,
                    frame.wf(),
                    out@.len() == y * line + x,
                    forall|i: int| 0 <= i < out@.len() ==> out@[i] == frame_text(frame)[i],
                decreases width - x,
            {
                proof {
                    lemma_text_position(width as int, y as int, x as int);
                    lemma_rows_fit(y as int, height as int, line);
                    assert(y * width + x == x + y * width);
                }
                out.push(self.glyph(x, y));
                x += 1;
            }
            proof {
                lemma_text_position(width as int, y as int, width as int);
                lemma_rows_fit(y as int, height as int, line);
            }
            out.push('\n');
            y += 1;
            assert(y * line == (y - 1) * line + line) by (nonlinear_arith);
        }
        assert(out@ =~= frame_text(frame));
        out
    }
}

/// The text of the rows up to and including row `y` lies within the text of
/// all rows.
proof fn lemma_rows_fit(y: int, height: int, line: int)
    requires
        0 <= y < height,
        0 <= line,
    ensures
        (y + 1) * line <= height * line,
{
    assert((y + 1) * line <= height * line) by (nonlinear_arith)
        requires
            0 <= y < height,
            0 <= line,
    ;
}

/// Every character of a picture's text is a line break, the background or a
/// glyph of the ramp, and the line breaks stand where the rows end.
pub proof fn lemma_text_shape(frame: Frame, shading: Seq<char>)
    requires
        frame.wf(),
        frame.glyphs_from(shading),
    ensures
        frame_text(frame).len() == frame.height * (frame.width + 1),
        forall|row: int| #![trigger frame_text(frame)[row * (frame.width + 1) + frame.width]]
            0 <= row < frame.height ==> frame_text(frame)[row * (frame.width + 1) + frame.width]
                == '\n',
        forall|row: int, column: int|
            #![trigger frame_text(frame)[row * (frame.width + 1) + column]]
            0 <= row < frame.height && 0 <= column < frame.width ==> {
                let c = frame_text(frame)[row * (frame.width + 1) + column];
                &&& c == frame.glyphs[row * frame.width + column]
                &&& (c == ' ' || shading.contains(c))
            },
{
    let w = frame.width as int;
    let h = frame.height as int;
    assert(0 <= h * (w + 1)) by (nonlinear_arith)
        requires
            0 <= h,
            0 <= w,
    ;
    assert forall|row: int, column: int| 0 <= row < h && 0 <= column <= w implies {
        let i = #[trigger] (row * (w + 1) + column);
        &&& 0 <= i < h * (w + 1)
        &&& i % (w + 1) == column
        &&& i / (w + 1) == row
        &&& 0 <= row * w + column
        &&& column < w ==> row * w + column < w * h
    } by {
        lemma_text_position(w, row, column);
        lemma_rows_fit(row, h, w + 1);
        assert(row * w + w <= w * h && 0 <= row * w && 0 <= row * (w + 1)) by (nonlinear_arith)
            requires
                0 <= row < h,
                0 <= w,
        ;
    }
}

/// Where the ramp holds no line break, the line breaks of a picture's text
/// are exactly the ends of its rows: the text has `height` lines of `width`
/// characters.
pub proof fn lemma_line_breaks(frame: Frame, shading: Seq<char>, i: int)
    requires
        frame.wf(),
        frame.glyphs_from(shading),
        !shading.contains('\n'),
        0 <= i < frame_text(frame).len(),
    ensures
        frame_text(frame)[i] == '\n' <==> i % (frame.width as int + 1) == frame.width as int,
{
    let w = frame.width as int;
    let h = frame.height as int;
    let row = i / (w + 1);
    let column = i % (w + 1);
    if column != w {
        lemma_fundamental_div_mod(i, w + 1);
        lemma_div_pos_is_pos(i, w + 1);
        assert(row < h) by (nonlinear_arith)
            requires
                i == (w + 1) * row + column,
                0 <= column,
                i < h * (w + 1),
                0 <= w,
        ;
        assert(row * w + w <= w * h && 0 <= row * w) by (nonlinear_arith)
            requires
                0 <= row < h,
                0 <= w,
        ;
        let c = frame.glyphs[row * w + column];
        assert(c == ' ' || shading.contains(c));
    }
}

/// Draws the samples in order on a blank picture and lays the picture out as
/// text: `height` lines of `width` characters, each followed by a line break.
pub fn render_frame(cfg: &Config, samples: &Vec<Sample>) -> (text: String)
    requires
        cfg.drawable(),
    ensures
        text@ == frame_text(
            render(cfg.width as nat, cfg.height as nat, cfg.shading@, samples@),
        ),
        text@.len() == cfg.height * (cfg.width + 1),
        forall|row: int| #![trigger text@[row * (cfg.width + 1) + cfg.width]]
            0 <= row < cfg.height ==> text@[row * (cfg.width + 1) + cfg.width] == '\n',
        forall|row: int, column: int| #![trigger text@[row * (cfg.width + 1) + column]]
            0 <= row < cfg.height && 0 <= column < cfg.width ==> {
                let c = text@[row * (cfg.width + 1) + column];
                c == ' ' || cfg.shading@.contains(c)
            },
        !cfg.shading@.contains('\n') ==> forall|i: int|
            0 <= i < text@.len() ==> (#[trigger] text@[i] == '\n' <==> i % (cfg.width + 1)
                == cfg.width),
{
    proof {
        assert(cfg.width * cfg.height <= cfg.height * (cfg.width + 1)) by (nonlinear_arith);
    }
    let mut buffer = FrameBuffer::new(cfg.width, cfg.height);
    let mut i: usize = 0;
    while i < samples.len()
        invariant
            i <= samples.len(),
            cfg.shading@.len() >= 1,
            buffer@.wf(),
            buffer@ == render(
                cfg.width as nat,
                cfg.height as nat,
                cfg.shading@,
                samples@.take(i as int),
            ),
        decreases samples.len() - i,
    {
        proof {
            assert(samples@.take(i + 1).drop_last() =~= samples@.take(i as int));
        }
        buffer.plot(&cfg.shading, samples[i]);
        i += 1;
    }
    proof {
        assert(samples@.take(i as int) =~= samples@);
        lemma_render_keeps(cfg.width as nat, cfg.height as nat, cfg.shading@, samples@);
        lemma_text_shape(buffer@, cfg.shading@);
        if !cfg.shading@.contains('\n') {
            assert forall|i: int| 0 <= i < frame_text(buffer@).len() implies (
            #[trigger] frame_text(buffer@)[i] == '\n' <==> i % (cfg.width + 1) == cfg.width) by {
                lemma_line_breaks(buffer@, cfg.shading@, i);
            }
        }
    }
    buffer.to_text()
}

} // verus!
