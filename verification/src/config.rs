use vstd::prelude::*;

verus! {

/// The display side of a run: picture size, glyph ramp and driver mode.
#[derive(Clone, Debug)]
pub struct Config {
    /// Characters per line.
    pub width: usize,
    /// Lines per picture.
    pub height: usize,
    /// Glyphs from dimmest to brightest.
    pub shading: Vec<char>,
    /// Measure throughput instead of animating.
    pub benchmark: bool,
    /// Pictures to draw when measuring.
    pub frames: usize,
}

/// A configuration as a value.
pub struct ConfigView {
    pub width: usize,
    pub height: usize,
    pub shading: Seq<char>,
    pub benchmark: bool,
    pub frames: usize,
}

impl View for Config {
    type V = ConfigView;

    open spec fn view(&self) -> ConfigView {
        ConfigView {
            width: self.width,
            height: self.height,
            shading: self.shading@,
            benchmark: self.benchmark,
            frames: self.frames,
        }
    }
}

/// The glyph ramp used when none is given: `.,-~:;=!*#$@`.
pub open spec fn default_shading() -> Seq<char> {
    seq!['.', ',', '-', '~', ':', ';', '=', '!', '*', '#', '$', '@']
}

impl Config {
    /// A picture can be drawn with this configuration: the ramp has a glyph,
    /// and the text of one picture has a length that fits the machine.
    pub open spec fn drawable(&self) -> bool {
        &&& self.shading@.len() >= 1
        &&& self.height * (self.width + 1) <= usize::MAX
    }

    /// Tests `drawable`.
    pub fn is_drawable(&self) -> (r: bool)
        ensures
            r == self.drawable(),
    {
        if self.shading.len() < 1 || self.width == usize::MAX {
            proof {
                if self.shading@.len() >= 1 && self.height >= 1 {
                    assert(self.height * (self.width + 1) >= self.width + 1) by (nonlinear_arith)
                        requires
                            self.height >= 1,
                    ;
                }
            }
            return self.shading.len() >= 1 && self.height == 0;
        }
        let line: usize = self.width + 1;
        match self.height.checked_mul(line) {
            Some(_) => true,
            None => false,
        }
    }
}

impl Default for Config {
    fn default() -> (r: Self)
        ensures
            r.width == 80,
            r.height == 22,
            r.shading@ == default_shading(),
            !r.benchmark,
            r.frames == 500,
            r.drawable(),
    {
        let shading = vec!['.', ',', '-', '~', ':', ';', '=', '!', '*', '#', '$', '@'];
        assert(shading@ =~= default_shading());
        Config { width: 80, height: 22, shading, benchmark: false, frames: 500 }
    }
}

} // verus!
