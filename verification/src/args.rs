use crate::config::{default_shading, Config, ConfigView};
use crate::number::{decimal, parse_usize, text_chars};
use vstd::prelude::*;
use vstd::string::*;

verus! {

/// The flags of the command line.
#[derive(Clone, Copy, Debug, PartialEq, Eq, Structural)]
pub enum Flag {
    /// `--benchmark`, the one flag that takes no value.
    Benchmark,
    /// `--width`
    Width,
    /// `--height`
    Height,
    /// `--r1`
    R1,
    /// `--r2`
    R2,
    /// `--k1`
    K1,
    /// `--k2`
    K2,
    /// `--a-step`
    AStep,
    /// `--b-step`
    BStep,
    /// `--theta-step`
    ThetaStep,
    /// `--phi-step`
    PhiStep,
    /// `--frames`
    Frames,
    /// `--shading`
    Shading,
}

/// A flag as it was found on the command line, with the argument that
/// followed it. `--benchmark` has an empty value.
#[derive(Clone, Debug)]
pub struct Setting {
    pub flag: Flag,
    pub value: String,
}

impl View for Setting {
    type V = (Flag, Seq<char>);

    open spec fn view(&self) -> (Flag, Seq<char>) {
        (self.flag, self.value@)
    }
}

/// The flag that an argument names, if any.
pub open spec fn flag_named(arg: Seq<char>) -> Option<Flag> {
    if arg == "--benchmark"@ {
        Some(Flag::Benchmark)
    } else if arg == "--width"@ {
        Some(Flag::Width)
    } else if arg == "--height"@ {
        Some(Flag::Height)
    } else if arg == "--r1"@ {
        Some(Flag::R1)
    } else if arg == "--r2"@ {
        Some(Flag::R2)
    } else if arg == "--k1"@ {
        Some(Flag::K1)
    } else if arg == "--k2"@ {
        Some(Flag::K2)
    } else if arg == "--a-step"@ {
        Some(Flag::AStep)
    } else if arg == "--b-step"@ {
        Some(Flag::BStep)
    } else if arg == "--theta-step"@ {
        Some(Flag::ThetaStep)
    } else if arg == "--phi-step"@ {
        Some(Flag::PhiStep)
    } else if arg == "--frames"@ {
        Some(Flag::Frames)
    } else if arg == "--shading"@ {
        Some(Flag::Shading)
    } else {
        None
    }
}

/// The texts of the arguments.
pub open spec fn texts(args: Seq<String>) -> Seq<Seq<char>> {
    Seq::new(args.len(), |i: int| args[i]@)
}

/// The settings found from argument `i` on. An argument that names no flag
/// is passed over. A flag with a value takes the next argument whatever it
/// holds, and is passed over where it is the last argument.
pub open spec fn scan_from(args: Seq<Seq<char>>, i: int) -> Seq<(Flag, Seq<char>)>
    decreases args.len() - i,
{
    if i < 0 || i >= args.len() {
        seq![]
    } else {
        match flag_named(args[i]) {
            None => scan_from(args, i + 1),
            Some(Flag::Benchmark) => seq![(Flag::Benchmark, Seq::<char>::empty())] + scan_from(
                args,
                i + 1,
            ),
            Some(flag) => if i + 1 < args.len() {
                seq![(flag, args[i + 1])] + scan_from(args, i + 2)
            } else {
                seq![]
            },
        }
    }
}

/// The configuration after one setting. A size or a count that is no
/// unsigned number leaves the field as it was; the flags of the geometry
/// leave the configuration as it was.
pub open spec fn apply(cfg: ConfigView, flag: Flag, value: Seq<char>) -> ConfigView {
    match flag {
        Flag::Benchmark => ConfigView { benchmark: true, ..cfg },
        Flag::Width => match decimal(value) {
            Some(n) => ConfigView { width: n, ..cfg },
            None => cfg,
        },
        Flag::Height => match decimal(value) {
            Some(n) => ConfigView { height: n, ..cfg },
            None => cfg,
        },
        Flag::Frames => match decimal(value) {
            Some(n) => ConfigView { frames: n, ..cfg },
            None => cfg,
        },
        Flag::Shading => ConfigView { shading: value, ..cfg },
        _ => cfg,
    }
}

/// The configuration after the settings, taken in order.
pub open spec fn apply_all(cfg: ConfigView, settings: Seq<(Flag, Seq<char>)>) -> ConfigView
    decreases settings.len(),
{
    if settings.len() == 0 {
        cfg
    } else {
        apply(apply_all(cfg, settings.drop_last()), settings.last().0, settings.last().1)
    }
}

/// The configuration when no flag is given.
pub open spec fn default_view() -> ConfigView {
    ConfigView { width: 80, height: 22, shading: default_shading(), benchmark: false, frames: 500 }
}

/// The configuration that a command line asks for. The first argument is the
/// program's name and is not read.
pub open spec fn parsed(args: Seq<Seq<char>>) -> ConfigView {
    apply_all(default_view(), scan_from(args, 1))
}

/// Tells which flag an argument names.
pub fn flag_of(arg: &String) -> (r: Option<Flag>)
    ensures
        r == flag_named(arg@),
{
    if *arg == String::from_str("--benchmark") {
        Some(Flag::Benchmark)
    } else if *arg == String::from_str("--width") {
        Some(Flag::Width)
    } else if *arg == String::from_str("--height") {
        Some(Flag::Height)
    } else if *arg == String::from_str("--r1") {
        Some(Flag::R1)
    } else if *arg == String::from_str("--r2") {
        Some(Flag::R2)
    } else if *arg == String::from_str("--k1") {
        Some(Flag::K1)
    } else if *arg == String::from_str("--k2") {
        Some(Flag::K2)
    } else if *arg == String::from_str("--a-step") {
        Some(Flag::AStep)
    } else if *arg == String::from_str("--b-step") {
        Some(Flag::BStep)
    } else if *arg == String::from_str("--theta-step") {
        Some(Flag::ThetaStep)
    } else if *arg == String::from_str("--phi-step") {
        Some(Flag::PhiStep)
    } else if *arg == String::from_str("--frames") {
        Some(Flag::Frames)
    } else if *arg == String::from_str("--shading") {
        Some(Flag::Shading)
    } else {
        None
    }
}

/// The views of a list of settings.
pub open spec fn setting_views(settings: Seq<Setting>) -> Seq<(Flag, Seq<char>)> {
    Seq::new(settings.len(), |i: int| settings[i]@)
}

/// Finds the settings on a command line, in order. The first argument is the
/// program's name and is not read.
pub fn scan_args(args: &Vec<String>) -> (r: Vec<Setting>)
    ensures
        setting_views(r@) == scan_from(texts(args@), 1),
{
    let ghost all = texts(args@);
    let mut out: Vec<Setting> = Vec::new();
    let mut i: usize = 1;
    while i < args.len()
        invariant
            1 <= i,
            all == texts(args@),
            setting_views(out@) + scan_from(all, i as int) == scan_from(all, 1),
        decreases args.len() - i,
    {
        let ghost before = setting_views(out@);
        match flag_of(&args[i]) {
            None => {
                i += 1;
            },
            Some(Flag::Benchmark) => {
                out.push(Setting { flag: Flag::Benchmark, value: String::new() });
                proof {
                    let one = seq![(Flag::Benchmark, Seq::<char>::empty())];
                    assert(setting_views(out@) =~= before + one);
                    assert((before + one) + scan_from(all, i + 1) =~= before + (one + scan_from(
                        all,
                        i + 1,
                    )));
                }
                i += 1;
            },
            Some(flag) => {
                if i + 1 < args.len() {
                    out.push(Setting { flag, value: args[i + 1].clone() });
                    proof {
                        let one = seq![(flag, all[i + 1])];
                        assert(setting_views(out@) =~= before + one);
                        assert((before + one) + scan_from(all, i + 2) =~= before + (one
                            + scan_from(all, i + 2)));
                    }
                    i += 2;
                } else {
                    i += 1;
                }
            },
        }
    }
    assert(setting_views(out@) + Seq::<(Flag, Seq<char>)>::empty() =~= setting_views(out@));
    out
}

impl Config {
    /// Takes one setting into the configuration.
    pub fn apply(&mut self, setting: &Setting)
        ensures
            final(self)@ == apply(old(self)@, setting.flag, setting.value@),
    {
        match setting.flag {
            Flag::Benchmark => {
                self.benchmark = true;
            },
            Flag::Width => {
                if let Some(n) = parse_usize(setting.value.as_str()) {
                    self.width = n;
                }
            },
            Flag::Height => {
                if let Some(n) = parse_usize(setting.value.as_str()) {
                    self.height = n;
                }
            },
            Flag::Frames => {
                if let Some(n) = parse_usize(setting.value.as_str()) {
                    self.frames = n;
                }
            },
            Flag::Shading => {
                self.shading = text_chars(setting.value.as_str());
            },
            _ => {},
        }
    }
}

/// Reads the configuration from a command line: the defaults, changed by the
/// settings in the order in which they stand.
pub fn parse_args(args: &Vec<String>) -> (cfg: Config)
    ensures
        cfg@ == parsed(texts(args@)),
{
    let settings = scan_args(args);
    let mut cfg = Config::default();
    let ghost views = setting_views(settings@);
    let mut i: usize = 0;
    while i < settings.len()
        invariant
            i <= settings.len(),
            views == setting_views(settings@),
            cfg@ == apply_all(default_view(), views.take(i as int)),
        decreases settings.len() - i,
    {
        proof {
            assert(views.take(i + 1).drop_last() =~= views.take(i as int));
        }
        cfg.apply(&settings[i]);
        i += 1;
    }
    assert(views.take(i as int) =~= views);
    cfg
}

} // verus!
