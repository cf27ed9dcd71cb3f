use vstd::prelude::*;

verus! {

/// One point of the surface after projection.
#[derive(Clone, Copy, Debug, PartialEq, Eq)]
pub struct Sample {
    /// Pixel column, possibly off the picture.
    pub column: isize,
    /// Pixel row, possibly off the picture.
    pub row: isize,
    /// The point faces the light.
    pub lit: bool,
    /// Brightness, before it is fitted to the glyph ramp.
    pub level: isize,
    /// Nearness to the eye: a larger key is nearer, and 0 is never drawn.
    pub depth: u64,
}

/// A picture as a value: glyphs and depth keys, row by row.
pub struct Frame {
    pub width: nat,
    pub height: nat,
    pub glyphs: Seq<char>,
    pub depth: Seq<u64>,
}

impl Sample {
    /// The sample is lit and its pixel lies on a picture of this size.
    pub open spec fn hits(self, width: nat, height: nat) -> bool {
        &&& self.lit
        &&& 0 <= self.column < width
        &&& 0 <= self.row < height
    }

    /// Where the sample's pixel stands in a row-major picture.
    pub open spec fn pixel(self, width: nat) -> int {
        self.column + width * self.row
    }
}

/// The brightness level fitted to a ramp of `len` glyphs.
pub open spec fn shade_index(level: int, len: int) -> int {
    if level < 0 {
        0
    } else if level > len - 1 {
        len - 1
    } else {
        level
    }
}

/// The picture with nothing drawn: all background, all depth keys 0.
pub open spec fn blank(width: nat, height: nat) -> Frame {
    Frame {
        width,
        height,
        glyphs: Seq::new(width * height, |i: int| ' '),
        depth: Seq::new(width * height, |i: int| 0u64),
    }
}

/// The picture after one more sample: it is drawn where it hits the picture
/// and is strictly nearer than what its pixel holds.
pub open spec fn plot(frame: Frame, shading: Seq<char>, s: Sample) -> Frame {
    let p = s.pixel(frame.width);
    if s.hits(frame.width, frame.height) && s.depth > frame.depth[p] {
        Frame {
            glyphs: frame.glyphs.update(
                p,
                shading[shade_index(s.level as int, shading.len() as int)],
            ),
            depth: frame.depth.update(p, s.depth),
            ..frame
        }
    } else {
        frame
    }
}

/// The picture after all samples, taken in order from a blank picture.
pub open spec fn render(width: nat, height: nat, shading: Seq<char>, samples: Seq<Sample>) -> Frame
    decreases samples.len(),
{
    if samples.len() == 0 {
        blank(width, height)
    } else {
        plot(render(width, height, shading, samples.drop_last()), shading, samples.last())
    }
}

impl Frame {
    /// Both grids have one entry per pixel.
    pub open spec fn wf(self) -> bool {
        &&& self.glyphs.len() == self.width * self.height
        &&& self.depth.len() == self.width * self.height
    }

    /// Every glyph is the background or comes from the ramp.
    pub open spec fn glyphs_from(self, shading: Seq<char>) -> bool {
        forall|p: int|
            0 <= p < self.glyphs.len() ==> #[trigger] self.glyphs[p] == ' ' || shading.contains(
                self.glyphs[p],
            )
    }
}

/// A sample that hits the picture has its pixel inside the grids.
pub proof fn lemma_pixel_in_range(s: Sample, width: nat, height: nat)
    requires
        s.hits(width, height),
    ensures
        0 <= s.pixel(width) < width * height,
{
    let w = width as int;
    let h = height as int;
    let r = s.row as int;
    assert(w * r + w <= w * h) by (nonlinear_arith)
        requires
            0 <= r < h,
            0 <= w,
    ;
    assert(0 <= w * r) by (nonlinear_arith)
        requires
            0 <= r,
            0 <= w,
    ;
}

/// Plotting keeps a picture well formed and its glyphs within the ramp.
pub proof fn lemma_plot_keeps(frame: Frame, shading: Seq<char>, s: Sample)
    requires
        frame.wf(),
        shading.len() >= 1,
    ensures
        plot(frame, shading, s).wf(),
        plot(frame, shading, s).width == frame.width,
        plot(frame, shading, s).height == frame.height,
        frame.glyphs_from(shading) ==> plot(frame, shading, s).glyphs_from(shading),
{
    if s.hits(frame.width, frame.height) {
        lemma_pixel_in_range(s, frame.width, frame.height);
        let k = shade_index(s.level as int, shading.len() as int);
        assert(shading.contains(shading[k]));
    }
}

/// Rendering gives a well-formed picture of the size asked for, with every
/// glyph the background or one of the ramp.
pub proof fn lemma_render_keeps(width: nat, height: nat, shading: Seq<char>, samples: Seq<Sample>)
    requires
        shading.len() >= 1,
    ensures
        render(width, height, shading, samples).wf(),
        render(width, height, shading, samples).width == width,
        render(width, height, shading, samples).height == height,
        render(width, height, shading, samples).glyphs_from(shading),
    decreases samples.len(),
{
    if samples.len() > 0 {
        lemma_render_keeps(width, height, shading, samples.drop_last());
        lemma_plot_keeps(
            render(width, height, shading, samples.drop_last()),
            shading,
            samples.last(),
        );
    }
}

/// The two grids of a picture while it is drawn.
pub struct FrameBuffer {
    width: usize,
    height: usize,
    glyphs: Vec<char>,
    depth: Vec<u64>,
}

impl View for FrameBuffer {
    type V = Frame;

    closed spec fn view(&self) -> Frame {
        Frame {
            width: self.width as nat,
            height: self.height as nat,
            glyphs: self.glyphs@,
            depth: self.depth@,
        }
    }
}

impl FrameBuffer {
    /// A blank picture of the given size.
    pub fn new(width: usize, height: usize) -> (r: Self)
        requires
            width * height <= usize::MAX,
        ensures
            r@ == blank(width as nat, height as nat),
            r@.wf(),
    {
        let n: usize = width * height;
        let mut glyphs: Vec<char> = Vec::new();
        let mut depth: Vec<u64> = Vec::new();
        let mut i: usize = 0;
        while i < n
            invariant
                i <= n,
                glyphs@ =~= Seq::new(i as nat, |j: int| ' '),
                depth@ =~= Seq::new(i as nat, |j: int| 0u64),
            decreases n - i,
        {
            glyphs.push(' ');
            depth.push(0);
            i += 1;
        }
        FrameBuffer { width, height, glyphs, depth }
    }

    /// Characters per line.
    pub fn width(&self) -> (r: usize)
        ensures
            r == self@.width,
    {
        self.width
    }

    /// Lines per picture.
    pub fn height(&self) -> (r: usize)
        ensures
            r == self@.height,
    {
        self.height
    }

    /// The glyph at a column and row of the picture.
    pub fn glyph(&self, column: usize, row: usize) -> (r: char)
        requires
            self@.wf(),
            column < self@.width,
            row < self@.height,
        ensures
            r == self@.glyphs[column + row * self@.width],
    {
        proof {
            let w = self.width as int;
            let h = self.height as int;
            let y = row as int;
            assert(y * w + w <= h * w && 0 <= y * w) by (nonlinear_arith)
                requires
                    0 <= y < h,
                    0 <= w,
            ;
            assert(h * w == w * h) by (nonlinear_arith);
            assert(w * h == self.glyphs.len());
        }
        self.glyphs[column + row * self.width]
    }

    /// Draws one sample: where it is lit, lies on the picture and is strictly
    /// nearer than what its pixel holds, the pixel takes its depth key and the
    /// glyph of its brightness; otherwise nothing changes.
    pub fn plot(&mut self, shading: &Vec<char>, s: Sample)
        requires
            old(self)@.wf(),
            shading@.len() >= 1,
        ensures
            final(self)@ == plot(old(self)@, shading@, s),
            final(self)@.wf(),
    {
        proof {
            lemma_plot_keeps(self@, shading@, s);
            assert(self.width * self.height == self.glyphs.len());
        }
        if s.lit && s.column >= 0 && s.row >= 0 && (s.column as usize) < self.width && (
        s.row as usize) < self.height {
            proof {
                lemma_pixel_in_range(s, self.width as nat, self.height as nat);
                let w = self.width as int;
                let r = s.row as int;
                assert(0 <= w * r) by (nonlinear_arith)
                    requires
                        0 <= r,
                        0 <= w,
                ;
            }
            let idx: usize = s.column as usize + self.width * (s.row as usize);
            if s.depth > self.depth[idx] {
                let top: usize = shading.len() - 1;
                let shade: usize = if s.level < 0 {
                    0
                } else if s.level as usize > top {
                    top
                } else {
                    s.level as usize
                };
                self.depth.set(idx, s.depth);
                self.glyphs.set(idx, shading[shade]);
            }
        }
    }
}

} // verus!
