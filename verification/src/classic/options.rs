use vstd::prelude::*;
use vstd::string::StrSliceExecFns;
use crate::cli::{args_view, first_index_of, lemma_first_index_of, parse_i32, parse_i32_spec, trunc_div, AxisCrop, CropBounds};
use crate::strings::{concat_str, str_equals, substring, suffix_from};

verus! {

/// The settings of a run, with the crop window as four plain bounds (-1
/// where none was given).
#[derive(Clone, Copy, Debug, PartialEq, Eq)]
pub struct Config {
    pub telnet: bool,
    pub show_counter: bool,
    pub frame_count: u32,
    pub clear_screen: bool,
    pub set_title: bool,
    pub show_intro: bool,
    pub skip_intro: bool,
    pub delay_ms: u64,
    pub min_row: i32,
    pub max_row: i32,
    pub min_col: i32,
    pub max_col: i32,
}

/// The settings before any argument is read.
pub open spec fn default_config() -> Config {
    Config {
        telnet: false,
        show_counter: true,
        frame_count: 0,
        clear_screen: true,
        set_title: true,
        show_intro: false,
        skip_intro: false,
        delay_ms: 90,
        min_row: -1i32,
        max_row: -1i32,
        min_col: -1i32,
        max_col: -1i32,
    }
}

impl Default for Config {
    fn default() -> (r: Self)
        ensures
            r == default_config(),
    {
        Config {
            telnet: false,
            show_counter: true,
            frame_count: 0,
            clear_screen: true,
            set_title: true,
            show_intro: false,
            skip_intro: false,
            delay_ms: 90,
            min_row: -1,
            max_row: -1,
            min_col: -1,
            max_col: -1,
        }
    }
}

impl Config {
    /// The same settings in the form the renderer takes: every crop bound
    /// given as set (-1 reads there as no bound, as before).
    pub fn render_config(&self) -> (r: crate::cli::Config)
        ensures
            r == (crate::cli::Config {
                telnet: self.telnet,
                show_counter: self.show_counter,
                frame_count: self.frame_count,
                clear_screen: self.clear_screen,
                set_title: self.set_title,
                show_intro: self.show_intro,
                skip_intro: self.skip_intro,
                delay_ms: self.delay_ms,
                benchmark: false,
                truecolor: false,
                crop: CropBounds {
                    rows: AxisCrop { min: Some(self.min_row), max: Some(self.max_row) },
                    cols: AxisCrop { min: Some(self.min_col), max: Some(self.max_col) },
                },
            }),
    {
        crate::cli::Config {
            telnet: self.telnet,
            show_counter: self.show_counter,
            frame_count: self.frame_count,
            clear_screen: self.clear_screen,
            set_title: self.set_title,
            show_intro: self.show_intro,
            skip_intro: self.skip_intro,
            delay_ms: self.delay_ms,
            benchmark: false,
            truecolor: false,
            crop: CropBounds {
                rows: AxisCrop { min: Some(self.min_row), max: Some(self.max_row) },
                cols: AxisCrop { min: Some(self.min_col), max: Some(self.max_col) },
            },
        }
    }
}

/// The number an option value stands for: the value read as an `i32`, or
/// 0 when it is not one.
pub open spec fn value_or_zero(value: Seq<char>) -> i32 {
    match parse_i32_spec(value) {
        Some(v) => v,
        None => 0,
    }
}

/// The bounds of a window of `size` cells centred on the 64-cell frame.
pub open spec fn centered_low(size: i32) -> i32 {
    trunc_div(64 - size, 2) as i32
}

pub open spec fn centered_high(size: i32) -> i32 {
    trunc_div(64 + size, 2) as i32
}

/// What the value option `opt` with value `value` does to `c`: the delay
/// is taken only between 10 and 1000 ms, a negative frame count reads as
/// 0 (no limit), the four bounds are set as given, and a width or height
/// centres a window of that size on the frame. Other letters change nothing.
pub open spec fn apply_option_spec(c: Config, opt: char, value: Seq<char>) -> Config {
    let v = value_or_zero(value);
    if opt == 'd' {
        if 10 <= v <= 1000 {
            Config { delay_ms: v as u64, ..c }
        } else {
            c
        }
    } else if opt == 'f' {
        Config { frame_count: if v < 0 { 0 } else { v as u32 }, ..c }
    } else if opt == 'r' {
        Config { min_row: v, ..c }
    } else if opt == 'R' {
        Config { max_row: v, ..c }
    } else if opt == 'c' {
        Config { min_col: v, ..c }
    } else if opt == 'C' {
        Config { max_col: v, ..c }
    } else if opt == 'W' {
        Config { min_col: centered_low(v), max_col: centered_high(v), ..c }
    } else if opt == 'H' {
        Config { min_row: centered_low(v), max_row: centered_high(v), ..c }
    } else {
        c
    }
}

/// Applies the value option `opt` with the value `value`.
pub fn apply_option(config: &mut Config, opt: char, value: &str)
    ensures
        *final(config) == apply_option_spec(*old(config), opt, value@),
{
    let v: i32 = match parse_i32(value) {
        Some(v) => v,
        None => 0,
    };
    if opt == 'd' {
        if 10 <= v && v <= 1000 {
            config.delay_ms = v as u64;
        }
    } else if opt == 'f' {
        config.frame_count = if v < 0 { 0 } else { v as u32 };
    } else if opt == 'r' {
        config.min_row = v;
    } else if opt == 'R' {
        config.max_row = v;
    } else if opt == 'c' {
        config.min_col = v;
    } else if opt == 'C' {
        config.max_col = v;
    } else if opt == 'W' {
        let crop = AxisCrop::centered(64, v);
        config.min_col = crop.min.unwrap();
        config.max_col = crop.max.unwrap();
    } else if opt == 'H' {
        let crop = AxisCrop::centered(64, v);
        config.min_row = crop.min.unwrap();
        config.max_row = crop.max.unwrap();
    }
}

/// The letter of the value option a long name stands for, or NUL.
pub open spec fn long_short(name: Seq<char>) -> char {
    if name == "delay"@ {
        'd'
    } else if name == "frames"@ {
        'f'
    } else if name == "min-rows"@ {
        'r'
    } else if name == "max-rows"@ {
        'R'
    } else if name == "min-cols"@ {
        'c'
    } else if name == "max-cols"@ {
        'C'
    } else if name == "width"@ {
        'W'
    } else if name == "height"@ {
        'H'
    } else {
        '\0'
    }
}

/// The letter of the value option named `name`, or NUL for any other name.
pub fn long_to_short(name: &str) -> (r: char)
    ensures
        r == long_short(name@),
{
    if str_equals(name, "delay") {
        'd'
    } else if str_equals(name, "frames") {
        'f'
    } else if str_equals(name, "min-rows") {
        'r'
    } else if str_equals(name, "max-rows") {
        'R'
    } else if str_equals(name, "min-cols") {
        'c'
    } else if str_equals(name, "max-cols") {
        'C'
    } else if str_equals(name, "width") {
        'W'
    } else if str_equals(name, "height") {
        'H'
    } else {
        '\0'
    }
}

/// The letters of the options that take a value.
pub open spec fn takes_value(opt: char) -> bool {
    opt == 'd' || opt == 'f' || opt == 'r' || opt == 'R' || opt == 'c' || opt == 'C' || opt == 'W' || opt == 'H'
}

pub fn option_requires_value(opt: char) -> (r: bool)
    ensures
        r == takes_value(opt),
{
    opt == 'd' || opt == 'f' || opt == 'r' || opt == 'R' || opt == 'c' || opt == 'C' || opt == 'W' || opt == 'H'
}

/// What the flag `opt` does to `c`; `None` for `h`, which asks for the help
/// text. Other letters change nothing.
pub open spec fn apply_flag_spec(c: Config, opt: char) -> Option<Config> {
    if opt == 'e' {
        Some(Config { clear_screen: false, ..c })
    } else if opt == 's' {
        Some(Config { set_title: false, ..c })
    } else if opt == 'i' {
        Some(Config { show_intro: true, ..c })
    } else if opt == 'I' {
        Some(Config { skip_intro: true, ..c })
    } else if opt == 't' {
        Some(Config { telnet: true, ..c })
    } else if opt == 'h' {
        None
    } else if opt == 'n' {
        Some(Config { show_counter: false, ..c })
    } else {
        Some(c)
    }
}

/// Applies the flag `opt`; returns whether it asks for the help text.
pub fn apply_flag(config: &mut Config, opt: char) -> (help: bool)
    ensures
        help == (apply_flag_spec(*old(config), opt) is None),
        !help ==> Some(*final(config)) == apply_flag_spec(*old(config), opt),
{
    if opt == 'e' {
        config.clear_screen = false;
    } else if opt == 's' {
        config.set_title = false;
    } else if opt == 'i' {
        config.show_intro = true;
    } else if opt == 'I' {
        config.skip_intro = true;
    } else if opt == 't' {
        config.telnet = true;
    } else if opt == 'h' {
        return true;
    } else if opt == 'n' {
        config.show_counter = false;
    }
    false
}

/// The argument at `i`, or the empty string past the last one.
pub open spec fn arg_or_empty(args: Seq<Seq<char>>, i: int) -> Seq<char> {
    if 0 <= i < args.len() {
        args[i]
    } else {
        Seq::empty()
    }
}

/// A long option `--name` or `--name=value`; `next` is the argument after
/// it. `None` when it asks for the help text, else the new settings and
/// whether `next` was taken as the value. Unknown names are skipped.
pub open spec fn long_arg_spec(arg: Seq<char>, next: Seq<char>, c: Config) -> Option<(Config, bool)> {
    let body = arg.subrange(2, arg.len() as int);
    let split = first_index_of(body, '=');
    let name = body.take(split);
    if name == "help"@ {
        None
    } else if name == "telnet"@ {
        Some((Config { telnet: true, ..c }, false))
    } else if name == "intro"@ {
        Some((Config { show_intro: true, ..c }, false))
    } else if name == "skip-intro"@ {
        Some((Config { skip_intro: true, ..c }, false))
    } else if name == "no-counter"@ {
        Some((Config { show_counter: false, ..c }, false))
    } else if name == "no-title"@ {
        Some((Config { set_title: false, ..c }, false))
    } else if name == "no-clear"@ {
        Some((Config { clear_screen: false, ..c }, false))
    } else if long_short(name) != '\0' {
        if split < body.len() {
            Some((apply_option_spec(c, long_short(name), body.subrange(split + 1, body.len() as int)), false))
        } else {
            Some((apply_option_spec(c, long_short(name), next), true))
        }
    } else {
        Some((c, false))
    }
}

/// A cluster of short options `-abc` from its `pos`-th character on: flags
/// apply in turn, and a value option takes the rest of the cluster, or
/// `next` when it ends the cluster.
pub open spec fn short_cluster_spec(arg: Seq<char>, pos: int, next: Seq<char>, c: Config) -> Option<(Config, bool)>
    decreases arg.len() - pos,
{
    if pos < 0 || pos >= arg.len() {
        Some((c, false))
    } else if takes_value(arg[pos]) {
        if pos + 1 < arg.len() {
            Some((apply_option_spec(c, arg[pos], arg.subrange(pos + 1, arg.len() as int)), false))
        } else {
            Some((apply_option_spec(c, arg[pos], next), true))
        }
    } else {
        match apply_flag_spec(c, arg[pos]) {
            None => None,
            Some(c2) => short_cluster_spec(arg, pos + 1, next, c2),
        }
    }
}

pub open spec fn is_long_arg(arg: Seq<char>) -> bool {
    arg.len() >= 2 && arg[0] == '-' && arg[1] == '-'
}

pub open spec fn is_short_cluster(arg: Seq<char>) -> bool {
    arg.len() > 1 && arg[0] == '-'
}

/// The arguments from the `i`-th on applied to `c`: `None` when one asks
/// for the help text; reading stops at `--`.
pub open spec fn parse_from(args: Seq<Seq<char>>, i: int, c: Config) -> Option<Config>
    decreases args.len() + 1 - i,
{
    if i < 0 || i >= args.len() || args[i] == "--"@ {
        Some(c)
    } else {
        let arg = args[i];
        let next = arg_or_empty(args, i + 1);
        let step = if is_long_arg(arg) {
            long_arg_spec(arg, next, c)
        } else if is_short_cluster(arg) {
            short_cluster_spec(arg, 1, next, c)
        } else {
            Some((c, false))
        };
        match step {
            None => None,
            Some((c2, took_next)) => parse_from(args, i + 1 + if took_next { 1int } else { 0 }, c2),
        }
    }
}

pub open spec fn step_matches(r: Option<bool>, c: Config, step: Option<(Config, bool)>) -> bool {
    match step {
        None => r is None,
        Some((c2, took_next)) => r == Some(took_next) && c == c2,
    }
}

/// Applies a long option; `None` when it asks for the help text, else
/// whether `next` was taken as its value.
fn apply_long_arg(config: &mut Config, arg: &str, next: &str) -> (r: Option<bool>)
    requires
        arg@.len() >= 2,
    ensures
        step_matches(r, *final(config), long_arg_spec(arg@, next@, *old(config))),
{
    let len = arg.unicode_len();
    let mut split: usize = 2;
    while split < len && arg.get_char(split) != '='
        invariant
            len == arg@.len(),
            2 <= split <= len,
            forall|k: int| 2 <= k < split ==> arg@[k] != '=',
        decreases len - split,
    {
        split = split + 1;
    }
    let ghost body = arg@.subrange(2, len as int);
    proof {
        lemma_first_index_of(body, '=', split - 2);
    }
    let name = substring(arg, 2, split);
    assert(name@ =~= body.take(split - 2));
    let name = name.as_str();
    if str_equals(name, "help") {
        return None;
    } else if str_equals(name, "telnet") {
        config.telnet = true;
    } else if str_equals(name, "intro") {
        config.show_intro = true;
    } else if str_equals(name, "skip-intro") {
        config.skip_intro = true;
    } else if str_equals(name, "no-counter") {
        config.show_counter = false;
    } else if str_equals(name, "no-title") {
        config.set_title = false;
    } else if str_equals(name, "no-clear") {
        config.clear_screen = false;
    } else {
        let opt = long_to_short(name);
        if opt != '\0' {
            if split < len {
                let value = suffix_from(arg, split + 1);
                assert(value@ =~= body.subrange(split - 2 + 1, body.len() as int));
                apply_option(config, opt, value.as_str());
            } else {
                apply_option(config, opt, next);
                return Some(true);
            }
        }
    }
    Some(false)
}

/// Applies a cluster of short options; `None` when one asks for the help
/// text, else whether `next` was taken as a value.
fn apply_short_cluster(config: &mut Config, arg: &str, next: &str) -> (r: Option<bool>)
    requires
        arg@.len() > 1,
    ensures
        step_matches(r, *final(config), short_cluster_spec(arg@, 1, next@, *old(config))),
{
    let len = arg.unicode_len();
    let mut pos: usize = 1;
    while pos < len
        invariant
            len == arg@.len(),
            1 <= pos <= len,
            short_cluster_spec(arg@, 1, next@, *old(config)) == short_cluster_spec(arg@, pos as int, next@, *config),
        decreases len - pos,
    {
        let opt = arg.get_char(pos);
        if option_requires_value(opt) {
            if pos + 1 < len {
                let value = suffix_from(arg, pos + 1);
                apply_option(config, opt, value.as_str());
                return Some(false);
            } else {
                apply_option(config, opt, next);
                return Some(true);
            }
        }
        if apply_flag(config, opt) {
            return None;
        }
        pos = pos + 1;
    }
    Some(false)
}

/// Reads the command line `args` (program name first) into `config`;
/// returns whether an argument asks for the help text, at which point
/// reading stops. Unknown options and stray words are skipped, a value
/// option missing its value gets the empty value, and `--` ends the options.
pub fn parse_args(args: &[String], config: &mut Config) -> (help: bool)
    ensures
        help == (parse_from(args_view(args@), 1, *old(config)) is None),
        !help ==> parse_from(args_view(args@), 1, *old(config)) == Some(*final(config)),
{
    let ghost av = args_view(args@);
    let n = args.len();
    let mut i: usize = 1;
    while i < n
        invariant
            n == args@.len(),
            av == args_view(args@),
            av.len() == n,
            1 <= i,
            parse_from(av, 1, *old(config)) == parse_from(av, i as int, *config),
        decreases n - i,
    {
        let arg: &str = args[i].as_str();
        assert(arg@ == av[i as int]);
        let next: &str = if i + 1 < n { args[i + 1].as_str() } else { "" };
        proof {
            if i + 1 >= n {
                reveal_strlit("");
            }
        }
        assert(next@ == arg_or_empty(av, i + 1));
        if str_equals(arg, "--") {
            return false;
        }
        let len = arg.unicode_len();
        let ghost before = *config;
        let step = if len >= 2 && arg.get_char(0) == '-' && arg.get_char(1) == '-' {
            apply_long_arg(config, arg, next)
        } else if len > 1 && arg.get_char(0) == '-' {
            apply_short_cluster(config, arg, next)
        } else {
            Some(false)
        };
        match step {
            None => {
                return true;
            },
            Some(took_next) => {
                assert(parse_from(av, i as int, before) == parse_from(
                    av,
                    i + 1 + if took_next { 1int } else { 0 },
                    *config,
                ));
                if took_next {
                    i = if i + 1 < n { i + 2 } else { n };
                } else {
                    i = i + 1;
                }
            },
        }
    }
    false
}

/// The help text after the program name: the options, one per line, with
/// their descriptions in italics.
pub const USAGE_OPTIONS: &'static str = " [-hitn] [-f \x1b[3mframes\x1b[0m]\n\
    \n\
    -i --intro      \x1b[3mShow the introduction / about information at startup.\x1b[0m\n\
    -t --telnet     \x1b[3mTelnet mode.\x1b[0m\n\
    -n --no-counter \x1b[3mDo not display the timer\x1b[0m\n\
    -s --no-title   \x1b[3mDo not set the titlebar text\x1b[0m\n\
    -e --no-clear   \x1b[3mDo not clear the display between frames\x1b[0m\n\
    -d --delay      \x1b[3mDelay image rendering by anywhere between 10ms and 1000ms\n\
    -f --frames     \x1b[3mDisplay the requested number of frames, then quit\x1b[0m\n\
    -r --min-rows   \x1b[3mCrop the animation from the top\x1b[0m\n\
    -R --max-rows   \x1b[3mCrop the animation from the bottom\x1b[0m\n\
    -c --min-cols   \x1b[3mCrop the animation from the left\x1b[0m\n\
    -C --max-cols   \x1b[3mCrop the animation from the right\x1b[0m\n\
    -W --width      \x1b[3mCrop the animation to the given width\x1b[0m\n\
    -H --height     \x1b[3mCrop the animation to the given height\x1b[0m\n\
    -h --help       \x1b[3mShow this help message.\x1b[0m";

/// The help text for a program called `program`.
pub open spec fn usage_spec(program: Seq<char>) -> Seq<char> {
    "Terminal Nyancat\n\nusage: "@ + program + USAGE_OPTIONS@
}

/// The help text for a program called `program`, without a final newline.
pub fn usage_text(program: &str) -> (r: String)
    ensures
        r@ == usage_spec(program@),
{
    let head = concat_str("Terminal Nyancat\n\nusage: ", program);
    concat_str(head.as_str(), USAGE_OPTIONS)
}

/// A width or height option of an even size `v` gives a window of exactly
/// `v` cells, centred on the frame.
pub proof fn lemma_even_window_is_centred(v: i32)
    requires
        v % 2 == 0,
    ensures
        centered_high(v) - centered_low(v) == v,
        centered_high(v) + centered_low(v) == 64,
{
}

/// A value option given again overrides the earlier value (a delay out of
/// range is ignored, so there the earlier one stays).
pub proof fn lemma_last_value_wins(c: Config, opt: char, first: Seq<char>, second: Seq<char>)
    requires
        opt == 'd' ==> 10 <= value_or_zero(second) <= 1000,
    ensures
        apply_option_spec(apply_option_spec(c, opt, first), opt, second) == apply_option_spec(c, opt, second),
{
}

} // verus!
