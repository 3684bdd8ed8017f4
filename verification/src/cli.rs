use vstd::prelude::*;
use crate::animation::{FRAME_HEIGHT, FRAME_WIDTH};
use vstd::string::StrSliceExecFns;
use crate::strings::{concat_str, lead_byte, push_char, str_equals, string_of, substring, suffix_from, utf8_lead_byte};

verus! {

/// Rust's `/` on integers: the quotient rounded toward zero.
pub open spec fn trunc_div(a: int, b: int) -> int {
    if a >= 0 {
        a / b
    } else {
        -((-a) / b)
    }
}

/// The crop of one axis of the animation, as given on the command line;
/// a bound not given reads as the automatic value -1.
#[derive(Clone, Copy, Debug, PartialEq, Eq, Structural)]
pub struct AxisCrop {
    pub min: Option<i32>,
    pub max: Option<i32>,
}

/// The value an unset bound reads as.
pub open spec fn auto_bound() -> i32 {
    -1i32
}

pub open spec fn bound_or_auto(b: Option<i32>) -> i32 {
    match b {
        Some(v) => v,
        None => auto_bound(),
    }
}

/// The window of `size` cells centred on a frame of `frame_size` cells.
pub open spec fn centered_bounds(frame_size: int, size: int) -> (int, int) {
    (trunc_div(frame_size - size, 2), trunc_div(frame_size + size, 2))
}

impl Default for AxisCrop {
    fn default() -> (r: Self)
        ensures
            r.min is None,
            r.max is None,
    {
        AxisCrop { min: None, max: None }
    }
}

impl AxisCrop {
    /// The range of `size` cells centred on a frame of `frame_size` cells.
    pub fn centered(frame_size: i32, size: i32) -> (r: Self)
        ensures
            r.min == Some(centered_bounds(frame_size as int, size as int).0 as i32),
            r.max == Some(centered_bounds(frame_size as int, size as int).1 as i32),
            centered_bounds(frame_size as int, size as int).0 == r.min.unwrap() as int,
            centered_bounds(frame_size as int, size as int).1 == r.max.unwrap() as int,
    {
        let low: i64 = (frame_size as i64 - size as i64) / 2;
        let high: i64 = (frame_size as i64 + size as i64) / 2;
        AxisCrop { min: Some(low as i32), max: Some(high as i32) }
    }

    pub fn set_min(&mut self, min: i32)
        ensures
            final(self).min == Some(min),
            final(self).max == old(self).max,
    {
        self.min = Some(min);
    }

    pub fn set_max(&mut self, max: i32)
        ensures
            final(self).max == Some(max),
            final(self).min == old(self).min,
    {
        self.max = Some(max);
    }

    pub fn min_or_default(self) -> (r: i32)
        ensures
            r == bound_or_auto(self.min),
    {
        match self.min {
            Some(v) => v,
            None => -1,
        }
    }

    pub fn max_or_default(self) -> (r: i32)
        ensures
            r == bound_or_auto(self.max),
    {
        match self.max {
            Some(v) => v,
            None => -1,
        }
    }

    /// An empty range (both bounds equal, the default among them) means the
    /// axis is sized from the terminal.
    pub fn is_automatic_range(self) -> (r: bool)
        ensures
            r == (bound_or_auto(self.min) == bound_or_auto(self.max)),
    {
        self.min_or_default() == self.max_or_default()
    }

    pub fn as_pair(self) -> (r: (i32, i32))
        ensures
            r == (bound_or_auto(self.min), bound_or_auto(self.max)),
    {
        (self.min_or_default(), self.max_or_default())
    }
}

/// The rows and columns of the animation to draw.
#[derive(Clone, Copy, Debug, PartialEq, Eq, Structural)]
pub struct CropBounds {
    pub rows: AxisCrop,
    pub cols: AxisCrop,
}

impl Default for CropBounds {
    fn default() -> (r: Self)
        ensures
            r.rows.min is None,
            r.rows.max is None,
            r.cols.min is None,
            r.cols.max is None,
    {
        CropBounds { rows: AxisCrop::default(), cols: AxisCrop::default() }
    }
}

/// The run configuration that the command line selects.
#[derive(Debug, PartialEq, Eq, Structural)]
pub struct Config {
    pub telnet: bool,
    pub show_counter: bool,
    pub frame_count: u32,
    pub clear_screen: bool,
    pub set_title: bool,
    pub show_intro: bool,
    pub skip_intro: bool,
    pub delay_ms: u64,
    pub benchmark: bool,
    pub truecolor: bool,
    pub crop: CropBounds,
}

/// The configuration with no option given.
pub open spec fn default_config() -> Config {
    Config {
        telnet: false,
        show_counter: true,
        frame_count: 0,
        clear_screen: true,
        set_title: true,
        show_intro: false,
        skip_intro: false,
        delay_ms: 90,
        benchmark: false,
        truecolor: false,
        crop: CropBounds {
            rows: AxisCrop { min: None, max: None },
            cols: AxisCrop { min: None, max: None },
        },
    }
}

impl Default for Config {
    fn default() -> (r: Self)
        ensures
            r == default_config(),
    {
        Config {
            telnet: false,
            show_counter: true,
            frame_count: 0,
            clear_screen: true,
            set_title: true,
            show_intro: false,
            skip_intro: false,
            delay_ms: 90,
            benchmark: false,
            truecolor: false,
            crop: CropBounds::default(),
        }
    }
}

/// A number of frames after which the animation stops; never zero.
#[derive(Clone, Copy, Debug, PartialEq, Eq, Structural)]
pub struct FrameLimit {
    frames: u32,
}

impl View for FrameLimit {
    type V = u32;

    closed spec fn view(&self) -> u32 {
        self.frames
    }
}

impl FrameLimit {
    /// A limit of `frames` frames; zero frames means no limit.
    pub fn new(frames: u32) -> (r: Option<Self>)
        ensures
            r is Some <==> frames != 0,
            r matches Some(l) ==> l@ == frames,
    {
        if frames == 0 {
            None
        } else {
            Some(FrameLimit { frames })
        }
    }

    pub fn get(self) -> (r: u32)
        ensures
            r == self@,
            r != 0 || self@ == 0,
    {
        self.frames
    }
}

impl Config {
    /// A telnet session shows the intro unless told to skip it.
    pub fn apply_session_defaults(&mut self)
        ensures
            *final(self) == (if old(self).telnet && !old(self).skip_intro {
                Config { show_intro: true, ..*old(self) }
            } else {
                *old(self)
            }),
    {
        if self.telnet && !self.skip_intro {
            self.show_intro = true;
        }
    }

    /// The pause between frames, in milliseconds: none in benchmark mode.
    pub fn frame_delay_ms(&self) -> (r: u64)
        ensures
            r == (if self.benchmark { 0 } else { self.delay_ms }),
    {
        if self.benchmark {
            0
        } else {
            self.delay_ms
        }
    }

    /// The number of frames to draw before stopping, if any.
    pub fn frame_limit(&self) -> (r: Option<FrameLimit>)
        ensures
            r is Some <==> self.frame_count != 0,
            r matches Some(l) ==> l@ == self.frame_count,
    {
        FrameLimit::new(self.frame_count)
    }
}

/// What an option does.
#[derive(Clone, Copy, Debug, PartialEq, Eq, Structural)]
pub enum OptionId {
    NoClear,
    NoTitle,
    Intro,
    SkipIntro,
    Telnet,
    Benchmark,
    TrueColor,
    Help,
    NoCounter,
    Delay,
    Frames,
    MinRows,
    MaxRows,
    MinCols,
    MaxCols,
    Width,
    Height,
}

/// Whether an option stands alone or takes a value.
#[derive(Clone, Copy, Debug, PartialEq, Eq, Structural)]
pub enum OptionArity {
    Flag,
    Value,
}

/// One command-line option: its short and long names, whether it takes a
/// value (and the value's name in the help), and its help text.
#[derive(Clone, Copy, Debug, PartialEq, Eq)]
pub struct OptionSpec {
    pub id: OptionId,
    pub short: char,
    pub long: &'static str,
    pub arity: OptionArity,
    pub value_name: Option<&'static str>,
    pub description: &'static str,
}

impl OptionSpec {
    pub fn flag(id: OptionId, short: char, long: &'static str, description: &'static str) -> (r: Self)
        ensures
            r == (OptionSpec { id, short, long, arity: OptionArity::Flag, value_name: None, description }),
    {
        OptionSpec { id, short, long, arity: OptionArity::Flag, value_name: None, description }
    }

    pub fn value(
        id: OptionId,
        short: char,
        long: &'static str,
        value_name: &'static str,
        description: &'static str,
    ) -> (r: Self)
        ensures
            r == (OptionSpec { id, short, long, arity: OptionArity::Value, value_name: Some(value_name), description }),
    {
        OptionSpec { id, short, long, arity: OptionArity::Value, value_name: Some(value_name), description }
    }

    pub fn takes_value(self) -> (r: bool)
        ensures
            r == (self.arity == OptionArity::Value),
    {
        match self.arity {
            OptionArity::Value => true,
            OptionArity::Flag => false,
        }
    }
}

/// Every option, in the order the help lists them.
pub open spec fn option_table() -> Seq<OptionSpec> {
    seq![
        OptionSpec { id: OptionId::Intro, short: 'i', long: "intro", arity: OptionArity::Flag, value_name: None, description: "Show the introduction / about information at startup." },
        OptionSpec { id: OptionId::SkipIntro, short: 'I', long: "skip-intro", arity: OptionArity::Flag, value_name: None, description: "Skip the introduction in telnet mode." },
        OptionSpec { id: OptionId::Telnet, short: 't', long: "telnet", arity: OptionArity::Flag, value_name: None, description: "Telnet mode." },
        OptionSpec { id: OptionId::TrueColor, short: 'T', long: "truecolor", arity: OptionArity::Flag, value_name: None, description: "Enable 24-bit TrueColor mode (high-definition rendering)." },
        OptionSpec { id: OptionId::NoCounter, short: 'n', long: "no-counter", arity: OptionArity::Flag, value_name: None, description: "Do not display the timer." },
        OptionSpec { id: OptionId::NoTitle, short: 's', long: "no-title", arity: OptionArity::Flag, value_name: None, description: "Do not set the titlebar text." },
        OptionSpec { id: OptionId::NoClear, short: 'e', long: "no-clear", arity: OptionArity::Flag, value_name: None, description: "Do not clear the display between frames." },
        OptionSpec { id: OptionId::Benchmark, short: 'b', long: "benchmark", arity: OptionArity::Flag, value_name: None, description: "Run in benchmark mode (0ms delay). Warning: high CPU usage." },
        OptionSpec { id: OptionId::Help, short: 'h', long: "help", arity: OptionArity::Flag, value_name: None, description: "Show this help message." },
        OptionSpec { id: OptionId::Delay, short: 'd', long: "delay", arity: OptionArity::Value, value_name: Some("ms"), description: "Delay image rendering by anywhere between 10ms and 1000ms." },
        OptionSpec { id: OptionId::Frames, short: 'f', long: "frames", arity: OptionArity::Value, value_name: Some("frames"), description: "Display the requested number of frames, then quit." },
        OptionSpec { id: OptionId::MinRows, short: 'r', long: "min-rows", arity: OptionArity::Value, value_name: Some("row"), description: "Crop the animation from the top." },
        OptionSpec { id: OptionId::MaxRows, short: 'R', long: "max-rows", arity: OptionArity::Value, value_name: Some("row"), description: "Crop the animation from the bottom." },
        OptionSpec { id: OptionId::MinCols, short: 'c', long: "min-cols", arity: OptionArity::Value, value_name: Some("col"), description: "Crop the animation from the left." },
        OptionSpec { id: OptionId::MaxCols, short: 'C', long: "max-cols", arity: OptionArity::Value, value_name: Some("col"), description: "Crop the animation from the right." },
        OptionSpec { id: OptionId::Width, short: 'W', long: "width", arity: OptionArity::Value, value_name: Some("width"), description: "Crop the animation to the given width." },
        OptionSpec { id: OptionId::Height, short: 'H', long: "height", arity: OptionArity::Value, value_name: Some("height"), description: "Crop the animation to the given height." },
    ]
}

/// Every option, in the order the help lists them.
pub fn option_specs() -> (r: Vec<OptionSpec>)
    ensures
        r@ == option_table(),
{
    let mut specs: Vec<OptionSpec> = Vec::new();
    specs.push(OptionSpec::flag(OptionId::Intro, 'i', "intro", "Show the introduction / about information at startup."));
    specs.push(OptionSpec::flag(OptionId::SkipIntro, 'I', "skip-intro", "Skip the introduction in telnet mode."));
    specs.push(OptionSpec::flag(OptionId::Telnet, 't', "telnet", "Telnet mode."));
    specs.push(OptionSpec::flag(OptionId::TrueColor, 'T', "truecolor", "Enable 24-bit TrueColor mode (high-definition rendering)."));
    specs.push(OptionSpec::flag(OptionId::NoCounter, 'n', "no-counter", "Do not display the timer."));
    specs.push(OptionSpec::flag(OptionId::NoTitle, 's', "no-title", "Do not set the titlebar text."));
    specs.push(OptionSpec::flag(OptionId::NoClear, 'e', "no-clear", "Do not clear the display between frames."));
    specs.push(OptionSpec::flag(OptionId::Benchmark, 'b', "benchmark", "Run in benchmark mode (0ms delay). Warning: high CPU usage."));
    specs.push(OptionSpec::flag(OptionId::Help, 'h', "help", "Show this help message."));
    specs.push(OptionSpec::value(OptionId::Delay, 'd', "delay", "ms", "Delay image rendering by anywhere between 10ms and 1000ms."));
    specs.push(OptionSpec::value(OptionId::Frames, 'f', "frames", "frames", "Display the requested number of frames, then quit."));
    specs.push(OptionSpec::value(OptionId::MinRows, 'r', "min-rows", "row", "Crop the animation from the top."));
    specs.push(OptionSpec::value(OptionId::MaxRows, 'R', "max-rows", "row", "Crop the animation from the bottom."));
    specs.push(OptionSpec::value(OptionId::MinCols, 'c', "min-cols", "col", "Crop the animation from the left."));
    specs.push(OptionSpec::value(OptionId::MaxCols, 'C', "max-cols", "col", "Crop the animation from the right."));
    specs.push(OptionSpec::value(OptionId::Width, 'W', "width", "width", "Crop the animation to the given width."));
    specs.push(OptionSpec::value(OptionId::Height, 'H', "height", "height", "Crop the animation to the given height."));
    assert(specs@ =~= option_table());
    specs
}

pub open spec fn is_digit(c: char) -> bool {
    '0' <= c && c <= '9'
}

pub open spec fn all_digits(s: Seq<char>) -> bool {
    forall|i: int| 0 <= i < s.len() ==> #[trigger] is_digit(s[i])
}

/// The number the decimal digits `s` write.
pub open spec fn digits_value(s: Seq<char>) -> int
    decreases s.len(),
{
    if s.len() == 0 {
        0
    } else {
        digits_value(s.drop_last()) * 10 + (s.last() as int - '0' as int)
    }
}

/// What `str::parse::<i32>` reads from `s`: an optional `+` or `-`, then one
/// or more ASCII digits and nothing else, the value within `i32`.
pub open spec fn parse_i32_spec(s: Seq<char>) -> Option<i32> {
    if s.len() == 0 || unsigned_part(s).len() == 0 || !all_digits(unsigned_part(s)) {
        None
    } else {
        let value = if s[0] == '-' {
            -digits_value(unsigned_part(s))
        } else {
            digits_value(unsigned_part(s))
        };
        if i32::MIN <= value && value <= i32::MAX {
            Some(value as i32)
        } else {
            None
        }
    }
}

/// `s` without its sign, if it has one.
pub open spec fn unsigned_part(s: Seq<char>) -> Seq<char> {
    if s.len() > 0 && (s[0] == '-' || s[0] == '+') {
        s.drop_first()
    } else {
        s
    }
}

proof fn lemma_digits_value_nonneg(s: Seq<char>)
    requires
        all_digits(s),
    ensures
        digits_value(s) >= 0,
    decreases s.len(),
{
    if s.len() > 0 {
        assert(is_digit(s[s.len() - 1]));
        assert(all_digits(s.drop_last())) by {
            assert forall|i: int| 0 <= i < s.drop_last().len() implies #[trigger] is_digit(s.drop_last()[i]) by {
                assert(is_digit(s[i]));
            }
        }
        lemma_digits_value_nonneg(s.drop_last());
    }
}

/// A longer run of digits never reads as a smaller number.
proof fn lemma_digits_value_prefix(s: Seq<char>, k: int)
    requires
        all_digits(s),
        0 <= k <= s.len(),
    ensures
        digits_value(s.take(k)) <= digits_value(s),
    decreases s.len() - k,
{
    if k < s.len() {
        let d = s.drop_last();
        assert(all_digits(d)) by {
            assert forall|i: int| 0 <= i < d.len() implies #[trigger] is_digit(d[i]) by {
                assert(is_digit(s[i]));
            }
        }
        assert(is_digit(s[s.len() - 1]));
        lemma_digits_value_nonneg(d);
        lemma_digits_value_prefix(d, k);
        assert(d.take(k) =~= s.take(k));
    } else {
        assert(s.take(k) =~= s);
    }
}

/// Reads a decimal `i32` the way `str::parse::<i32>` does.
pub fn parse_i32(s: &str) -> (r: Option<i32>)
    ensures
        r == parse_i32_spec(s@),
{
    let n = s.unicode_len();
    if n == 0 {
        return None;
    }
    let first = s.get_char(0);
    let negative = first == '-';
    let start: usize = if first == '-' || first == '+' { 1 } else { 0 };
    let ghost body = unsigned_part(s@);
    assert(body =~= s@.subrange(start as int, n as int));
    if start == n {
        return None;
    }
    let mut magnitude: i64 = 0;
    let mut i: usize = start;
    while i < n
        invariant
            n == s@.len(),
            start <= i <= n,
            start < n,
            body == s@.subrange(start as int, n as int),
            body == unsigned_part(s@),
            negative == (s@[0] == '-'),
            all_digits(body.take(i - start)),
            magnitude == digits_value(body.take(i - start)),
            0 <= magnitude <= 2147483648,
        decreases n - i,
    {
        let c = s.get_char(i);
        if !('0' <= c && c <= '9') {
            assert(!is_digit(body[i - start]));
            assert(!all_digits(body));
            assert(body.len() > 0);
            assert(parse_i32_spec(s@) is None);
            return None;
        }
        let digit: i64 = (c as u32 - '0' as u32) as i64;
        let ghost prefix = body.take(i - start + 1);
        assert(prefix.drop_last() =~= body.take(i - start));
        assert(prefix.last() == c);
        assert(all_digits(prefix)) by {
            assert forall|k: int| 0 <= k < prefix.len() implies #[trigger] is_digit(prefix[k]) by {
                if k < prefix.len() - 1 {
                    assert(is_digit(body.take(i - start)[k]));
                }
            }
        }
        magnitude = magnitude * 10 + digit;
        i = i + 1;
        if magnitude > 2147483648 {
            proof {
                assert(magnitude == digits_value(body.take(i - start)));
                if all_digits(body) {
                    lemma_digits_value_prefix(body, i - start);
                    assert(digits_value(body) > 2147483648);
                }
                assert(parse_i32_spec(s@) is None);
            }
            return None;
        }
    }
    assert(body.take(n - start) =~= body);
    if negative {
        Some((0 - magnitude) as i32)
    } else if magnitude > 2147483647 {
        None
    } else {
        Some(magnitude as i32)
    }
}

/// The first option in `table` with long name `name`.
pub open spec fn find_long(table: Seq<OptionSpec>, name: Seq<char>) -> Option<OptionSpec>
    decreases table.len(),
{
    if table.len() == 0 {
        None
    } else if table[0].long@ == name {
        Some(table[0])
    } else {
        find_long(table.drop_first(), name)
    }
}

/// The first option in `table` with short name `short`.
pub open spec fn find_short(table: Seq<OptionSpec>, short: char) -> Option<OptionSpec>
    decreases table.len(),
{
    if table.len() == 0 {
        None
    } else if table[0].short == short {
        Some(table[0])
    } else {
        find_short(table.drop_first(), short)
    }
}

/// The option with long name `long`.
pub fn option_by_long(long: &str) -> (r: Option<OptionSpec>)
    ensures
        r == find_long(option_table(), long@),
{
    let specs = option_specs();
    let n = specs.len();
    let mut i: usize = 0;
    assert(option_table().skip(0) =~= option_table());
    while i < n
        invariant
            n == specs@.len(),
            specs@ == option_table(),
            i <= n,
            find_long(option_table(), long@) == find_long(option_table().skip(i as int), long@),
        decreases n - i,
    {
        let spec = specs[i];
        assert(option_table().skip(i as int).drop_first() =~= option_table().skip(i + 1));
        if str_equals(spec.long, long) {
            return Some(spec);
        }
        i = i + 1;
    }
    None
}

/// The option with short name `short`.
pub fn option_by_short(short: char) -> (r: Option<OptionSpec>)
    ensures
        r == find_short(option_table(), short),
{
    let specs = option_specs();
    let n = specs.len();
    let mut i: usize = 0;
    assert(option_table().skip(0) =~= option_table());
    while i < n
        invariant
            n == specs@.len(),
            specs@ == option_table(),
            i <= n,
            find_short(option_table(), short) == find_short(option_table().skip(i as int), short),
        decreases n - i,
    {
        let spec = specs[i];
        assert(option_table().skip(i as int).drop_first() =~= option_table().skip(i + 1));
        if spec.short == short {
            return Some(spec);
        }
        i = i + 1;
    }
    None
}

/// What running the program with the given arguments asks for.
#[derive(Debug, PartialEq, Eq)]
pub enum CliAction {
    Run(Config),
    Help { program: String },
}

/// Why a command line was refused.
#[allow(inconsistent_fields)]
#[derive(Debug, PartialEq, Eq)]
pub enum CliError {
    MissingValue { option: String },
    InvalidValue { option: String, value: String },
    ValueOutOfRange { option: String, value: i32, min: i32, max: i32 },
    UnknownOption { option: String },
}

pub enum CliActionModel {
    Run(Config),
    Help(Seq<char>),
}

pub enum CliErrorModel {
    MissingValue(Seq<char>),
    InvalidValue(Seq<char>, Seq<char>),
    ValueOutOfRange(Seq<char>, i32, i32, i32),
    UnknownOption(Seq<char>),
}

impl CliAction {
    pub open spec fn model(&self) -> CliActionModel {
        match self {
            CliAction::Run(config) => CliActionModel::Run(*config),
            CliAction::Help { program } => CliActionModel::Help(program@),
        }
    }
}

impl CliError {
    pub open spec fn model(&self) -> CliErrorModel {
        match self {
            CliError::MissingValue { option } => CliErrorModel::MissingValue(option@),
            CliError::InvalidValue { option, value } => CliErrorModel::InvalidValue(option@, value@),
            CliError::ValueOutOfRange { option, value, min, max } => CliErrorModel::ValueOutOfRange(option@, *value, *min, *max),
            CliError::UnknownOption { option } => CliErrorModel::UnknownOption(option@),
        }
    }

    /// The message the program prints for this error.
    pub fn message(&self) -> (r: String)
        ensures
            r@ == error_message(self.model()),
    {
        match self {
            CliError::MissingValue { option } => concat_str("missing value for ", option.as_str()),
            CliError::InvalidValue { option, value } => {
                let mut r = concat_str("invalid value for ", option.as_str());
                r.append(": ");
                r.append(value.as_str());
                r
            },
            CliError::ValueOutOfRange { option, value, min, max } => {
                let mut r = concat_str("value for ", option.as_str());
                r.append(" out of range: ");
                push_i32(&mut r, *value);
                r.append(" (expected ");
                push_i32(&mut r, *min);
                r.append("-");
                push_i32(&mut r, *max);
                r.append(")");
                r
            },
            CliError::UnknownOption { option } => concat_str("unknown option: ", option.as_str()),
        }
    }
}

/// The decimal digits of `n`, as characters.
pub open spec fn decimal_chars(n: nat) -> Seq<char>
    decreases n,
{
    if n < 10 {
        seq![(('0' as u32) + n) as char]
    } else {
        decimal_chars(n / 10).push((('0' as u32) + n % 10) as char)
    }
}

/// `v` in decimal, with a minus sign when negative.
pub open spec fn i32_chars(v: i32) -> Seq<char> {
    if v < 0 {
        seq!['-'] + decimal_chars((-(v as int)) as nat)
    } else {
        decimal_chars(v as nat)
    }
}

fn push_decimal_chars(s: &mut String, n: u64)
    ensures
        final(s)@ == old(s)@ + decimal_chars(n as nat),
    decreases n,
{
    if n >= 10 {
        push_decimal_chars(s, n / 10);
    }
    let digit: u32 = (n % 10) as u32;
    let c: char = ((0x30u32 + digit) as u8) as char;
    push_char(s, c);
    assert(final(s)@ =~= old(s)@ + decimal_chars(n as nat));
}

fn push_i32(s: &mut String, v: i32)
    ensures
        final(s)@ == old(s)@ + i32_chars(v),
{
    if v < 0 {
        push_char(s, '-');
        let magnitude: u64 = (0 - (v as i64)) as u64;
        push_decimal_chars(s, magnitude);
        assert(final(s)@ =~= old(s)@ + i32_chars(v));
    } else {
        push_decimal_chars(s, v as u64);
    }
}

/// The message shown for a refused command line.
pub open spec fn error_message(e: CliErrorModel) -> Seq<char> {
    match e {
        CliErrorModel::MissingValue(option) => "missing value for "@ + option,
        CliErrorModel::InvalidValue(option, value) => "invalid value for "@ + option + ": "@ + value,
        CliErrorModel::ValueOutOfRange(option, value, min, max) => "value for "@ + option + " out of range: "@
            + i32_chars(value) + " (expected "@ + i32_chars(min) + "-"@ + i32_chars(max) + ")"@,
        CliErrorModel::UnknownOption(option) => "unknown option: "@ + option,
    }
}

/// A flag applied to `config`: its setting, or for `Help` the request to
/// show the help of `program`; a value option is no flag.
pub open spec fn apply_flag_spec(config: Config, id: OptionId, option: Seq<char>, program: Seq<char>)
    -> Result<(Config, Option<CliActionModel>), CliErrorModel>
{
    match id {
        OptionId::NoClear => Ok((Config { clear_screen: false, ..config }, None)),
        OptionId::NoTitle => Ok((Config { set_title: false, ..config }, None)),
        OptionId::Intro => Ok((Config { show_intro: true, ..config }, None)),
        OptionId::SkipIntro => Ok((Config { skip_intro: true, ..config }, None)),
        OptionId::Telnet => Ok((Config { telnet: true, ..config }, None)),
        OptionId::Benchmark => Ok((Config { benchmark: true, ..config }, None)),
        OptionId::TrueColor => Ok((Config { truecolor: true, ..config }, None)),
        OptionId::Help => Ok((config, Some(CliActionModel::Help(program)))),
        OptionId::NoCounter => Ok((Config { show_counter: false, ..config }, None)),
        _ => Err(CliErrorModel::UnknownOption(option)),
    }
}

/// The crop of `size` cells centred on a frame of `frame_size` cells.
pub open spec fn centered_crop(frame_size: i32, size: i32) -> AxisCrop {
    AxisCrop {
        min: Some(centered_bounds(frame_size as int, size as int).0 as i32),
        max: Some(centered_bounds(frame_size as int, size as int).1 as i32),
    }
}

/// A value option applied to `config`. The value must read as an `i32`;
/// the delay must lie in 10..=1000 ms; a negative frame count means no
/// limit; width and height centre the crop on the frame; a flag is no value
/// option.
pub open spec fn apply_value_spec(config: Config, id: OptionId, option: Seq<char>, value: Seq<char>)
    -> Result<Config, CliErrorModel>
{
    match parse_i32_spec(value) {
        None => Err(CliErrorModel::InvalidValue(option, value)),
        Some(v) => match id {
            OptionId::Delay => if 10 <= v && v <= 1000 {
                Ok(Config { delay_ms: v as u64, ..config })
            } else {
                Err(CliErrorModel::ValueOutOfRange(option, v, 10, 1000))
            },
            OptionId::Frames => Ok(Config { frame_count: if v > 0 { v as u32 } else { 0 }, ..config }),
            OptionId::MinRows => Ok(Config { crop: CropBounds { rows: AxisCrop { min: Some(v), ..config.crop.rows }, ..config.crop }, ..config }),
            OptionId::MaxRows => Ok(Config { crop: CropBounds { rows: AxisCrop { max: Some(v), ..config.crop.rows }, ..config.crop }, ..config }),
            OptionId::MinCols => Ok(Config { crop: CropBounds { cols: AxisCrop { min: Some(v), ..config.crop.cols }, ..config.crop }, ..config }),
            OptionId::MaxCols => Ok(Config { crop: CropBounds { cols: AxisCrop { max: Some(v), ..config.crop.cols }, ..config.crop }, ..config }),
            OptionId::Width => Ok(Config { crop: CropBounds { cols: centered_crop(64, v), ..config.crop }, ..config }),
            OptionId::Height => Ok(Config { crop: CropBounds { rows: centered_crop(64, v), ..config.crop }, ..config }),
            _ => Err(CliErrorModel::UnknownOption(option)),
        },
    }
}

/// Applies the flag `spec` (named `option` on the command line) to `config`;
/// `Help` asks for the help of `program` instead.
pub fn apply_flag(config: &mut Config, spec: OptionSpec, option: &str, program: &str) -> (r: Result<Option<CliAction>, CliError>)
    ensures
        match apply_flag_spec(*old(config), spec.id, option@, program@) {
            Ok((c, action)) => *final(config) == c && (match r {
                Ok(Some(a)) => action == Some(a.model()),
                Ok(None) => action is None,
                Err(_) => false,
            }),
            Err(e) => *final(config) == *old(config) && (match r {
                Err(err) => err.model() == e,
                Ok(_) => false,
            }),
        },
{
    match spec.id {
        OptionId::NoClear => config.clear_screen = false,
        OptionId::NoTitle => config.set_title = false,
        OptionId::Intro => config.show_intro = true,
        OptionId::SkipIntro => config.skip_intro = true,
        OptionId::Telnet => config.telnet = true,
        OptionId::Benchmark => config.benchmark = true,
        OptionId::TrueColor => config.truecolor = true,
        OptionId::Help => {
            return Ok(Some(CliAction::Help { program: string_of(program) }));
        },
        OptionId::NoCounter => config.show_counter = false,
        _ => {
            return Err(CliError::UnknownOption { option: string_of(option) });
        },
    }
    Ok(None)
}

/// Applies the value option `spec` (named `option` on the command line)
/// with the argument `value` to `config`.
pub fn apply_value_option(config: &mut Config, spec: OptionSpec, option: &str, value: &str) -> (r: Result<(), CliError>)
    ensures
        match apply_value_spec(*old(config), spec.id, option@, value@) {
            Ok(c) => *final(config) == c && r is Ok,
            Err(e) => *final(config) == *old(config) && (match r {
                Err(err) => err.model() == e,
                Ok(_) => false,
            }),
        },
{
    let parsed = match parse_i32(value) {
        Some(v) => v,
        None => {
            return Err(CliError::InvalidValue { option: string_of(option), value: string_of(value) });
        },
    };
    match spec.id {
        OptionId::Delay => {
            if !(10 <= parsed && parsed <= 1000) {
                return Err(CliError::ValueOutOfRange { option: string_of(option), value: parsed, min: 10, max: 1000 });
            }
            config.delay_ms = parsed as u64;
        },
        OptionId::Frames => config.frame_count = if parsed > 0 { parsed as u32 } else { 0 },
        OptionId::MinRows => config.crop.rows.set_min(parsed),
        OptionId::MaxRows => config.crop.rows.set_max(parsed),
        OptionId::MinCols => config.crop.cols.set_min(parsed),
        OptionId::MaxCols => config.crop.cols.set_max(parsed),
        OptionId::Width => config.crop.cols = AxisCrop::centered(FRAME_WIDTH as i32, parsed),
        OptionId::Height => config.crop.rows = AxisCrop::centered(FRAME_HEIGHT as i32, parsed),
        _ => {
            return Err(CliError::UnknownOption { option: string_of(option) });
        },
    }
    Ok(())
}

/// The outcome of one command-line argument: a refusal, an action that
/// ends parsing (help), or the configuration to go on with and whether the
/// next argument was taken as this one's value.
pub enum StepModel {
    Fail(CliErrorModel),
    Finish(CliActionModel),
    Next(Config, bool),
}

/// The index of the first `c` in `s`, or the length of `s` when it has none.
pub open spec fn first_index_of(s: Seq<char>, c: char) -> int
    decreases s.len(),
{
    if s.len() == 0 {
        0
    } else if s[0] == c {
        0
    } else {
        1 + first_index_of(s.drop_first(), c)
    }
}

/// The option letter a short-option character is looked up as: the
/// character itself when ASCII, else the first byte of its UTF-8 encoding
/// read as a character (which names no option).
pub open spec fn short_name(c: char) -> char {
    if (c as u32) < 0x80 {
        c
    } else {
        (utf8_lead_byte(c) as u32) as char
    }
}

/// A value option with its value applied, as a step.
pub open spec fn value_step(config: Config, id: OptionId, option: Seq<char>, value: Seq<char>, took_next: bool) -> StepModel {
    match apply_value_spec(config, id, option, value) {
        Err(e) => StepModel::Fail(e),
        Ok(c) => StepModel::Next(c, took_next),
    }
}

/// A `--name` or `--name=value` argument; `next` is the argument after it.
pub open spec fn long_step(arg: Seq<char>, next: Option<Seq<char>>, config: Config, program: Seq<char>) -> StepModel {
    let body = arg.subrange(2, arg.len() as int);
    let split = first_index_of(body, '=');
    let name = body.take(split);
    let option = "--"@ + name;
    match find_long(option_table(), name) {
        None => StepModel::Fail(CliErrorModel::UnknownOption(option)),
        Some(spec) => if spec.arity == OptionArity::Value {
            if split < body.len() {
                value_step(config, spec.id, option, body.subrange(split + 1, body.len() as int), false)
            } else {
                match next {
                    None => StepModel::Fail(CliErrorModel::MissingValue(option)),
                    Some(v) => value_step(config, spec.id, option, v, true),
                }
            }
        } else {
            match apply_flag_spec(config, spec.id, option, program) {
                Err(e) => StepModel::Fail(e),
                Ok((c, Some(a))) => StepModel::Finish(a),
                Ok((c, None)) => StepModel::Next(c, false),
            }
        },
    }
}

/// A cluster of short options `-abc` from its `pos`-th character on: flags
/// apply in turn; a value option takes the rest of the cluster, or the next
/// argument when it ends the cluster.
pub open spec fn cluster_step(arg: Seq<char>, pos: int, next: Option<Seq<char>>, config: Config, program: Seq<char>) -> StepModel
    decreases arg.len() - pos,
{
    if pos >= arg.len() || pos < 0 {
        StepModel::Next(config, false)
    } else {
        let short = short_name(arg[pos]);
        let option = "-"@.push(short);
        match find_short(option_table(), short) {
            None => StepModel::Fail(CliErrorModel::UnknownOption(option)),
            Some(spec) => if spec.arity == OptionArity::Value {
                if pos + 1 < arg.len() {
                    value_step(config, spec.id, option, arg.subrange(pos + 1, arg.len() as int), false)
                } else {
                    match next {
                        None => StepModel::Fail(CliErrorModel::MissingValue(option)),
                        Some(v) => value_step(config, spec.id, option, v, true),
                    }
                }
            } else {
                match apply_flag_spec(config, spec.id, option, program) {
                    Err(e) => StepModel::Fail(e),
                    Ok((c, Some(a))) => StepModel::Finish(a),
                    Ok((c, None)) => cluster_step(arg, pos + 1, next, c, program),
                }
            },
        }
    }
}

pub open spec fn next_arg(args: Seq<Seq<char>>, i: int) -> Option<Seq<char>> {
    if i + 1 < args.len() {
        Some(args[i + 1])
    } else {
        None
    }
}

/// What one argument does: `--` ends the options, `--name` is a long
/// option, `-abc` a cluster of short options; anything else (a lone `-`
/// among them) is skipped.
pub open spec fn arg_step(args: Seq<Seq<char>>, i: int, config: Config, program: Seq<char>) -> Option<StepModel> {
    let arg = args[i];
    if arg == "--"@ {
        None
    } else if arg.len() >= 2 && arg[0] == '-' && arg[1] == '-' {
        Some(long_step(arg, next_arg(args, i), config, program))
    } else if arg.len() > 1 && arg[0] == '-' {
        Some(cluster_step(arg, 1, next_arg(args, i), config, program))
    } else {
        Some(StepModel::Next(config, false))
    }
}

/// The arguments from the `i`-th on, applied to `config`.
pub open spec fn parse_from(args: Seq<Seq<char>>, program: Seq<char>, i: int, config: Config) -> Result<CliActionModel, CliErrorModel>
    decreases args.len() + 1 - i,
{
    if i >= args.len() || i < 0 {
        Ok(CliActionModel::Run(config))
    } else {
        match arg_step(args, i, config, program) {
            None => Ok(CliActionModel::Run(config)),
            Some(StepModel::Fail(e)) => Err(e),
            Some(StepModel::Finish(a)) => Ok(a),
            Some(StepModel::Next(c, took_next)) => parse_from(args, program, i + 1 + if took_next { 1int } else { 0 }, c),
        }
    }
}

/// The name the help calls the program by: the first argument, else
/// `nyancat`.
pub open spec fn program_name(args: Seq<Seq<char>>) -> Seq<char> {
    if args.len() > 0 {
        args[0]
    } else {
        "nyancat"@
    }
}

/// The command line `args` (program name first) read into an action.
pub open spec fn parse_args_spec(args: Seq<Seq<char>>) -> Result<CliActionModel, CliErrorModel> {
    parse_from(args, program_name(args), 1, default_config())
}

pub open spec fn args_view(args: Seq<String>) -> Seq<Seq<char>> {
    args.map_values(|a: String| a@)
}

pub open spec fn result_matches(r: Result<CliAction, CliError>, m: Result<CliActionModel, CliErrorModel>) -> bool {
    match r {
        Ok(a) => m == Ok::<CliActionModel, CliErrorModel>(a.model()),
        Err(e) => m == Err::<CliActionModel, CliErrorModel>(e.model()),
    }
}

/// The continuation of a step taken at argument `i`.
pub open spec fn after_step(args: Seq<Seq<char>>, program: Seq<char>, i: int, step: StepModel) -> Result<CliActionModel, CliErrorModel> {
    match step {
        StepModel::Fail(e) => Err(e),
        StepModel::Finish(a) => Ok(a),
        StepModel::Next(c, took_next) => parse_from(args, program, i + 1 + if took_next { 1int } else { 0 }, c),
    }
}

/// The first `c` in `s` is at `j` when none comes before it.
pub proof fn lemma_first_index_of(s: Seq<char>, c: char, j: int)
    requires
        0 <= j <= s.len(),
        forall|k: int| 0 <= k < j ==> s[k] != c,
        j == s.len() || s[j] == c,
    ensures
        first_index_of(s, c) == j,
    decreases j,
{
    if j > 0 {
        lemma_first_index_of(s.drop_first(), c, j - 1);
    }
}

/// How the handling of one argument ended: parsing stops with a result,
/// or goes on (after the next argument too, when it was taken as a value).
pub enum ArgOutcome {
    Stop(Result<CliAction, CliError>),
    Continue(bool),
}

pub open spec fn outcome_matches(r: ArgOutcome, config: Config, step: StepModel) -> bool {
    match step {
        StepModel::Fail(e) => r matches ArgOutcome::Stop(Err(err)) && err.model() == e,
        StepModel::Finish(a) => r matches ArgOutcome::Stop(Ok(act)) && act.model() == a,
        StepModel::Next(c, took_next) => r == ArgOutcome::Continue(took_next) && config == c,
    }
}

pub open spec fn next_view(next: Option<&String>) -> Option<Seq<char>> {
    match next {
        Some(s) => Some(s@),
        None => None,
    }
}

/// Handles a long option argument `--name` or `--name=value`; `next` is
/// the argument after it.
pub fn apply_long_arg(config: &mut Config, arg: &str, next: Option<&String>, program: &str) -> (r: ArgOutcome)
    requires
        arg@.len() >= 2,
    ensures
        outcome_matches(r, *final(config), long_step(arg@, next_view(next), *old(config), program@)),
{
    let len = arg.unicode_len();
    let mut split: usize = 2;
    while split < len && arg.get_char(split) != '='
        invariant
            len == arg@.len(),
            2 <= split <= len,
            forall|k: int| 2 <= k < split ==> arg@[k] != '=',
        decreases len - split,
    {
        split = split + 1;
    }
    let ghost body = arg@.subrange(2, len as int);
    proof {
        lemma_first_index_of(body, '=', split - 2);
    }
    let name = substring(arg, 2, split);
    assert(name@ =~= body.take(split - 2));
    let option = concat_str("--", name.as_str());
    let spec = match option_by_long(name.as_str()) {
        None => {
            return ArgOutcome::Stop(Err(CliError::UnknownOption { option }));
        },
        Some(spec) => spec,
    };
    if spec.takes_value() {
        let mut took_next = false;
        let value = if split < len {
            let v = suffix_from(arg, split + 1);
            assert(v@ =~= body.subrange(split - 2 + 1, body.len() as int));
            v
        } else {
            match next {
                Some(v) => {
                    took_next = true;
                    v.clone()
                },
                None => {
                    return ArgOutcome::Stop(Err(CliError::MissingValue { option }));
                },
            }
        };
        match apply_value_option(config, spec, option.as_str(), value.as_str()) {
            Ok(()) => ArgOutcome::Continue(took_next),
            Err(e) => ArgOutcome::Stop(Err(e)),
        }
    } else {
        match apply_flag(config, spec, option.as_str(), program) {
            Ok(Some(action)) => ArgOutcome::Stop(Ok(action)),
            Ok(None) => ArgOutcome::Continue(false),
            Err(e) => ArgOutcome::Stop(Err(e)),
        }
    }
}

/// Handles a cluster of short options `-abc`; `next` is the argument after
/// it.
pub fn apply_short_args(config: &mut Config, arg: &str, next: Option<&String>, program: &str) -> (r: ArgOutcome)
    requires
        arg@.len() > 1,
    ensures
        outcome_matches(r, *final(config), cluster_step(arg@, 1, next_view(next), *old(config), program@)),
{
    let len = arg.unicode_len();
    let mut pos: usize = 1;
    while pos < len
        invariant
            len == arg@.len(),
            1 <= pos <= len,
            cluster_step(arg@, 1, next_view(next), *old(config), program@)
                == cluster_step(arg@, pos as int, next_view(next), *config, program@),
        decreases len - pos,
    {
        let c = arg.get_char(pos);
        let short: char = if (c as u32) < 0x80 { c } else { lead_byte(c) as char };
        assert(short == short_name(arg@[pos as int]));
        let mut option = string_of("-");
        push_char(&mut option, short);
        let spec = match option_by_short(short) {
            None => {
                return ArgOutcome::Stop(Err(CliError::UnknownOption { option }));
            },
            Some(spec) => spec,
        };
        if spec.takes_value() {
            let mut took_next = false;
            let value = if pos + 1 < len {
                suffix_from(arg, pos + 1)
            } else {
                match next {
                    Some(v) => {
                        took_next = true;
                        v.clone()
                    },
                    None => {
                        return ArgOutcome::Stop(Err(CliError::MissingValue { option }));
                    },
                }
            };
            return match apply_value_option(config, spec, option.as_str(), value.as_str()) {
                Ok(()) => ArgOutcome::Continue(took_next),
                Err(e) => ArgOutcome::Stop(Err(e)),
            };
        }
        match apply_flag(config, spec, option.as_str(), program) {
            Ok(Some(action)) => {
                return ArgOutcome::Stop(Ok(action));
            },
            Ok(None) => {},
            Err(e) => {
                return ArgOutcome::Stop(Err(e));
            },
        }
        pos = pos + 1;
    }
    ArgOutcome::Continue(false)
}

/// Without a next argument, no option takes it.
proof fn lemma_cluster_without_next(arg: Seq<char>, pos: int, config: Config, program: Seq<char>)
    ensures
        !(cluster_step(arg, pos, None, config, program) matches StepModel::Next(_, true)),
    decreases arg.len() - pos,
{
    if 0 <= pos < arg.len() {
        let short = short_name(arg[pos]);
        let option = "-"@.push(short);
        if let Some(spec) = find_short(option_table(), short) {
            if spec.arity != OptionArity::Value {
                if let Ok((c, None)) = apply_flag_spec(config, spec.id, option, program) {
                    lemma_cluster_without_next(arg, pos + 1, c, program);
                }
            }
        }
    }
}

/// Reads the command line `args` (program name first): the configuration to
/// run with, a request for help, or why the command line is refused.
pub fn parse_args(args: &[String]) -> (r: Result<CliAction, CliError>)
    ensures
        result_matches(r, parse_args_spec(args_view(args@))),
{
    let ghost av = args_view(args@);
    let program = if args.len() > 0 { args[0].clone() } else { string_of("nyancat") };
    let ghost prog = program_name(av);
    assert(program@ == prog);
    let mut config = Config::default();
    let n = args.len();
    let mut i: usize = 1;
    while i < n
        invariant
            n == args@.len(),
            av == args_view(args@),
            av.len() == n,
            program@ == prog,
            1 <= i,
            parse_args_spec(av) == parse_from(av, prog, i as int, config),
        decreases n - i,
    {
        let arg: &str = args[i].as_str();
        assert(arg@ == av[i as int]);
        let next: Option<&String> = if i + 1 < n { Some(&args[i + 1]) } else { None };
        assert(next_view(next) == next_arg(av, i as int));
        if str_equals(arg, "--") {
            return Ok(CliAction::Run(config));
        }
        let len = arg.unicode_len();
        let ghost config_before = config;
        let outcome = if len >= 2 && arg.get_char(0) == '-' && arg.get_char(1) == '-' {
            apply_long_arg(&mut config, arg, next, program.as_str())
        } else if len > 1 && arg.get_char(0) == '-' {
            apply_short_args(&mut config, arg, next, program.as_str())
        } else {
            ArgOutcome::Continue(false)
        };
        match outcome {
            ArgOutcome::Stop(result) => {
                return result;
            },
            ArgOutcome::Continue(took_next) => {
                proof {
                    if next is None {
                        lemma_cluster_without_next(arg@, 1, config_before, prog);
                    }
                }
                if took_next {
                    i = i + 2;
                } else {
                    i = i + 1;
                }
            },
        }
    }
    Ok(CliAction::Run(config))
}

/// How an option is written in the help: `-s, --long`, with ` <value>`
/// for an option that takes one.
pub open spec fn option_label(spec: OptionSpec) -> Seq<char> {
    match spec.value_name {
        Some(v) => "-"@.push(spec.short) + ", --"@ + spec.long@ + " <"@ + v@ + ">"@,
        None => "-"@.push(spec.short) + ", --"@ + spec.long@,
    }
}

/// `s` padded with spaces to `width` characters; a longer `s` is kept whole.
pub open spec fn pad_right(s: Seq<char>, width: nat) -> Seq<char> {
    s + spaces(if s.len() >= width { 0 } else { (width - s.len()) as nat })
}

pub open spec fn spaces(count: nat) -> Seq<char> {
    Seq::new(count, |i: int| ' ')
}

/// One help line: the label in a 25-character column, then the
/// description in italics, reset before the line ends.
pub open spec fn usage_line(spec: OptionSpec) -> Seq<char> {
    "  "@ + pad_right(option_label(spec), 25) + "\x1b[3m"@ + spec.description@ + "\x1b[0m\n"@
}

pub open spec fn usage_lines(specs: Seq<OptionSpec>) -> Seq<char>
    decreases specs.len(),
{
    if specs.len() == 0 {
        Seq::empty()
    } else {
        usage_lines(specs.drop_last()) + usage_line(specs.last())
    }
}

pub open spec fn usage_header(program: Seq<char>) -> Seq<char> {
    "Terminal Nyancat\n\nusage: "@ + program + " [options]\n\n"@
}

/// The help text: a title, the usage line with the program name, then one
/// line per option.
pub open spec fn usage_spec(program: Seq<char>) -> Seq<char> {
    usage_header(program) + usage_lines(option_table())
}

/// How `spec` is written in the help.
pub fn option_label_text(spec: OptionSpec) -> (r: String)
    ensures
        r@ == option_label(spec),
{
    let mut out = string_of("-");
    push_char(&mut out, spec.short);
    out.append(", --");
    out.append(spec.long);
    if let Some(v) = spec.value_name {
        out.append(" <");
        out.append(v);
        out.append(">");
    }
    assert(out@ =~= option_label(spec));
    out
}

fn push_usage_line(out: &mut String, spec: OptionSpec)
    ensures
        final(out)@ == old(out)@ + usage_line(spec),
{
    let ghost start = out@;
    out.append("  ");
    let label = option_label_text(spec);
    let label_len = label.as_str().unicode_len();
    out.append(label.as_str());
    let mut k: usize = label_len;
    while k < 25
        invariant
            label_len <= k <= 25 || (label_len > 25 && k == label_len),
            label_len == option_label(spec).len(),
            out@ == start + "  "@ + option_label(spec) + Seq::new((k - label_len) as nat, |i: int| ' '),
        decreases 25 - k,
    {
        push_char(out, ' ');
        k = k + 1;
        assert(out@ =~= start + "  "@ + option_label(spec) + Seq::new((k - label_len) as nat, |i: int| ' '));
    }
    assert(start + "  "@ + pad_right(option_label(spec), 25) =~= out@) by {
        if label_len >= 25 {
            assert(spaces(0) =~= Seq::<char>::empty());
        }
    }
    out.append("\x1b[3m");
    out.append(spec.description);
    out.append("\x1b[0m\n");
    assert(final(out)@ =~= old(out)@ + usage_line(spec));
}

/// The help text for a program called `program`.
pub fn usage_text(program: &str) -> (r: String)
    ensures
        r@ == usage_spec(program@),
{
    let mut usage = string_of("Terminal Nyancat\n\nusage: ");
    usage.append(program);
    usage.append(" [options]\n\n");
    let specs = option_specs();
    let n = specs.len();
    let mut i: usize = 0;
    assert(option_table().take(0) =~= Seq::<OptionSpec>::empty());
    assert(usage@ =~= usage_header(program@) + usage_lines(option_table().take(0)));
    while i < n
        invariant
            n == specs@.len(),
            specs@ == option_table(),
            i <= n,
            usage@ == usage_header(program@) + usage_lines(option_table().take(i as int)),
        decreases n - i,
    {
        push_usage_line(&mut usage, specs[i]);
        assert(option_table().take(i + 1).drop_last() =~= option_table().take(i as int));
        i = i + 1;
        assert(usage@ =~= usage_header(program@) + usage_lines(option_table().take(i as int)));
    }
    assert(option_table().take(n as int) =~= option_table());
    usage
}

/// No two options share a short name or a long name, so each name on the
/// command line means one option.
pub proof fn lemma_option_names_unique(i: int, j: int)
    requires
        0 <= i < j < option_table().len(),
    ensures
        option_table()[i].short != option_table()[j].short,
        option_table()[i].long@ != option_table()[j].long@,
{
    reveal_strlit("intro");
    reveal_strlit("skip-intro");
    reveal_strlit("telnet");
    reveal_strlit("truecolor");
    reveal_strlit("no-counter");
    reveal_strlit("no-title");
    reveal_strlit("no-clear");
    reveal_strlit("benchmark");
    reveal_strlit("help");
    reveal_strlit("delay");
    reveal_strlit("frames");
    reveal_strlit("min-rows");
    reveal_strlit("max-rows");
    reveal_strlit("min-cols");
    reveal_strlit("max-cols");
    reveal_strlit("width");
    reveal_strlit("height");
    let a = option_table()[i].long@;
    let b = option_table()[j].long@;
    if a == b {
        assert(a.len() == b.len());
        assert(a[0] == b[0]);
        assert(a[a.len() - 1] == b[b.len() - 1]);
        assert(a[1] == b[1]);
        assert(a[a.len() - 2] == b[b.len() - 2]);
    }
}

pub open spec fn contains_run(s: Seq<char>, part: Seq<char>) -> bool {
    exists|k: int| 0 <= k && k + part.len() <= s.len() && #[trigger] s.subrange(k, k + part.len()) == part
}

proof fn lemma_usage_lines_split(specs: Seq<OptionSpec>, i: int)
    requires
        0 <= i < specs.len(),
    ensures
        usage_lines(specs) == usage_lines(specs.take(i)) + usage_line(specs[i]) + usage_lines(specs.skip(i + 1)),
    decreases specs.len(),
{
    if i == specs.len() - 1 {
        assert(specs.take(i) =~= specs.drop_last());
        assert(specs.skip(i + 1) =~= Seq::<OptionSpec>::empty());
        assert(usage_lines(specs.skip(i + 1)) == Seq::<char>::empty());
        assert(usage_lines(specs.take(i)) + usage_line(specs[i]) + Seq::<char>::empty()
            =~= usage_lines(specs.take(i)) + usage_line(specs[i]));
    } else {
        let d = specs.drop_last();
        lemma_usage_lines_split(d, i);
        assert(d.take(i) =~= specs.take(i));
        assert(d[i] == specs[i]);
        let tail = specs.skip(i + 1);
        assert(tail.drop_last() =~= d.skip(i + 1));
        assert(tail.last() == specs.last());
        assert(usage_lines(tail) == usage_lines(d.skip(i + 1)) + usage_line(specs.last()));
        assert(usage_lines(specs.take(i)) + usage_line(specs[i]) + usage_lines(tail)
            =~= usage_lines(specs.take(i)) + usage_line(specs[i]) + usage_lines(d.skip(i + 1)) + usage_line(specs.last()));
    }
}

proof fn lemma_contains_run_within(s: Seq<char>, before: Seq<char>, mid: Seq<char>, after: Seq<char>, part: Seq<char>)
    requires
        s == before + mid + after,
        contains_run(mid, part),
    ensures
        contains_run(s, part),
{
    let k = choose|k: int| 0 <= k && k + part.len() <= mid.len() && #[trigger] mid.subrange(k, k + part.len()) == part;
    let k2 = before.len() + k;
    assert(s.subrange(k2, k2 + part.len()) =~= mid.subrange(k, k + part.len()));
}

proof fn lemma_contains_run_at(s: Seq<char>, part: Seq<char>, k: int)
    requires
        0 <= k,
        k + part.len() <= s.len(),
        s.subrange(k, k + part.len()) == part,
    ensures
        contains_run(s, part),
{
}

proof fn lemma_contains_middle(a: Seq<char>, part: Seq<char>, b: Seq<char>)
    ensures
        contains_run(a + part + b, part),
{
    let s = a + part + b;
    assert(s.subrange(a.len() as int, a.len() as int + part.len()) =~= part);
    lemma_contains_run_at(s, part, a.len() as int);
}

proof fn lemma_line_holds_itself(spec: OptionSpec)
    ensures
        contains_run(usage_line(spec), usage_line(spec)),
{
    let line = usage_line(spec);
    assert(line.subrange(0int, 0int + line.len()) =~= line);
    lemma_contains_run_at(line, line, 0);
}

proof fn lemma_line_holds_description(spec: OptionSpec)
    ensures
        contains_run(usage_line(spec), spec.description@),
{
    let padded = pad_right(option_label(spec), 25);
    lemma_contains_middle("  "@ + padded + "\x1b[3m"@, spec.description@, "\x1b[0m\n"@);
}

proof fn lemma_line_holds_label(spec: OptionSpec)
    ensures
        contains_run(usage_line(spec), option_label(spec)),
{
    let label = option_label(spec);
    let pad = spaces(if label.len() >= 25 { 0 } else { (25 - label.len()) as nat });
    let rest = pad + "\x1b[3m"@ + spec.description@ + "\x1b[0m\n"@;
    lemma_contains_middle("  "@, label, rest);
    assert("  "@ + label + rest =~= usage_line(spec));
}

/// A help line holds the option's label and description.
proof fn lemma_line_holds_parts(spec: OptionSpec)
    ensures
        contains_run(usage_line(spec), usage_line(spec)),
        contains_run(usage_line(spec), option_label(spec)),
        contains_run(usage_line(spec), spec.description@),
{
    lemma_line_holds_itself(spec);
    lemma_line_holds_description(spec);
    lemma_line_holds_label(spec);
}

proof fn lemma_lines_list_every_spec(header: Seq<char>, specs: Seq<OptionSpec>, i: int)
    requires
        0 <= i < specs.len(),
    ensures
        contains_run(header + usage_lines(specs), usage_line(specs[i])),
        contains_run(header + usage_lines(specs), option_label(specs[i])),
        contains_run(header + usage_lines(specs), specs[i].description@),
{
    let line = usage_line(specs[i]);
    lemma_usage_lines_split(specs, i);
    let before = header + usage_lines(specs.take(i));
    let after = usage_lines(specs.skip(i + 1));
    assert(header + usage_lines(specs) =~= before + line + after);
    lemma_line_holds_parts(specs[i]);
    lemma_contains_run_within(header + usage_lines(specs), before, line, after, line);
    lemma_contains_run_within(header + usage_lines(specs), before, line, after, option_label(specs[i]));
    lemma_contains_run_within(header + usage_lines(specs), before, line, after, specs[i].description@);
}

/// The help lists every option: its line (label, description and, for a
/// value option, the value name) appears in the help text.
pub proof fn lemma_usage_lists_every_option(program: Seq<char>, i: int)
    requires
        0 <= i < option_table().len(),
    ensures
        contains_run(usage_spec(program), usage_line(option_table()[i])),
        contains_run(usage_spec(program), option_label(option_table()[i])),
        contains_run(usage_spec(program), option_table()[i].description@),
{
    lemma_lines_list_every_spec(usage_header(program), option_table(), i);
}

/// Every option line of the help ends by resetting the italics its
/// description is set in, then ends the line.
pub proof fn lemma_usage_line_resets_italics(spec: OptionSpec)
    ensures
        ({
            let line = usage_line(spec);
            let reset = "\x1b[0m\n"@;
            line.len() >= reset.len() && line.subrange(line.len() - reset.len(), line.len() as int) == reset
        }),
{
    let line = usage_line(spec);
    let reset = "\x1b[0m\n"@;
    assert(line.subrange(line.len() - reset.len(), line.len() as int) =~= reset);
}

/// The delay lies in the range the command line accepts.
pub open spec fn delay_in_range(c: Config) -> bool {
    10 <= c.delay_ms && c.delay_ms <= 1000
}

proof fn lemma_flag_keeps_delay(config: Config, id: OptionId, option: Seq<char>, program: Seq<char>)
    requires
        delay_in_range(config),
    ensures
        apply_flag_spec(config, id, option, program) matches Ok((c, None)) ==> delay_in_range(c),
        apply_flag_spec(config, id, option, program) matches Ok((c, Some(a))) ==> a is Help,
{
}

proof fn lemma_value_step_keeps_delay(config: Config, id: OptionId, option: Seq<char>, value: Seq<char>, took_next: bool)
    requires
        delay_in_range(config),
    ensures
        value_step(config, id, option, value, took_next) matches StepModel::Next(c, _) ==> delay_in_range(c),
        !(value_step(config, id, option, value, took_next) is Finish),
{
}

proof fn lemma_long_step_keeps_delay(arg: Seq<char>, next: Option<Seq<char>>, config: Config, program: Seq<char>)
    requires
        delay_in_range(config),
    ensures
        long_step(arg, next, config, program) matches StepModel::Next(c, _) ==> delay_in_range(c),
        long_step(arg, next, config, program) matches StepModel::Finish(a) ==> a is Help,
{
    let body = arg.subrange(2, arg.len() as int);
    let split = first_index_of(body, '=');
    let name = body.take(split);
    let option = "--"@ + name;
    if let Some(spec) = find_long(option_table(), name) {
        if spec.arity == OptionArity::Value {
            lemma_value_step_keeps_delay(config, spec.id, option, body.subrange(split + 1, body.len() as int), false);
            if let Some(v) = next {
                lemma_value_step_keeps_delay(config, spec.id, option, v, true);
            }
        } else {
            lemma_flag_keeps_delay(config, spec.id, option, program);
        }
    }
}

proof fn lemma_cluster_step_keeps_delay(arg: Seq<char>, pos: int, next: Option<Seq<char>>, config: Config, program: Seq<char>)
    requires
        delay_in_range(config),
    ensures
        cluster_step(arg, pos, next, config, program) matches StepModel::Next(c, _) ==> delay_in_range(c),
        cluster_step(arg, pos, next, config, program) matches StepModel::Finish(a) ==> a is Help,
    decreases arg.len() - pos,
{
    if 0 <= pos < arg.len() {
        let short = short_name(arg[pos]);
        let option = "-"@.push(short);
        if let Some(spec) = find_short(option_table(), short) {
            if spec.arity == OptionArity::Value {
                lemma_value_step_keeps_delay(config, spec.id, option, arg.subrange(pos + 1, arg.len() as int), false);
                if let Some(v) = next {
                    lemma_value_step_keeps_delay(config, spec.id, option, v, true);
                }
            } else {
                lemma_flag_keeps_delay(config, spec.id, option, program);
                if let Ok((c, None)) = apply_flag_spec(config, spec.id, option, program) {
                    lemma_cluster_step_keeps_delay(arg, pos + 1, next, c, program);
                }
            }
        }
    }
}

proof fn lemma_parse_from_keeps_delay(args: Seq<Seq<char>>, program: Seq<char>, i: int, config: Config)
    requires
        delay_in_range(config),
    ensures
        parse_from(args, program, i, config) matches Ok(CliActionModel::Run(c)) ==> delay_in_range(c),
    decreases args.len() + 1 - i,
{
    if 0 <= i < args.len() {
        let arg = args[i];
        if arg != "--"@ {
            if arg.len() >= 2 && arg[0] == '-' && arg[1] == '-' {
                lemma_long_step_keeps_delay(arg, next_arg(args, i), config, program);
            } else if arg.len() > 1 && arg[0] == '-' {
                lemma_cluster_step_keeps_delay(arg, 1, next_arg(args, i), config, program);
            }
            if let Some(StepModel::Next(c, took_next)) = arg_step(args, i, config, program) {
                lemma_parse_from_keeps_delay(args, program, i + 1 + if took_next { 1int } else { 0 }, c);
            }
        }
    }
}

/// Whatever the arguments, a command line that is accepted to run selects a
/// delay between 10 and 1000 ms.
pub proof fn lemma_parsed_delay_in_range(args: Seq<Seq<char>>)
    ensures
        parse_args_spec(args) matches Ok(CliActionModel::Run(c)) ==> 10 <= c.delay_ms && c.delay_ms <= 1000,
{
    lemma_parse_from_keeps_delay(args, program_name(args), 1, default_config());
}

proof fn lemma_decimal_chars(n: nat)
    ensures
        decimal_chars(n).len() > 0,
        all_digits(decimal_chars(n)),
        digits_value(decimal_chars(n)) == n,
    decreases n,
{
    let c = ((('0' as u32) + n % 10) as char);
    assert((c as int) - ('0' as int) == n % 10);
    if n >= 10 {
        lemma_decimal_chars(n / 10);
        let s = decimal_chars(n / 10);
        assert(decimal_chars(n) == s.push(c));
        assert(decimal_chars(n).drop_last() =~= s);
        assert(decimal_chars(n).last() == c);
        assert(digits_value(decimal_chars(n)) == digits_value(s) * 10 + (c as int - '0' as int));
        assert((n / 10) * 10 + n % 10 == n);
        assert forall|i: int| 0 <= i < decimal_chars(n).len() implies #[trigger] is_digit(decimal_chars(n)[i]) by {
            if i < s.len() {
                assert(is_digit(s[i]));
            }
        }
    } else {
        assert(n % 10 == n);
        assert(decimal_chars(n) == seq![c]);
        assert(decimal_chars(n).drop_last() =~= Seq::<char>::empty());
        assert(digits_value(decimal_chars(n)) == digits_value(Seq::<char>::empty()) * 10 + (c as int - '0' as int));
    }
}

/// An `i32` written in decimal reads back as itself.
pub proof fn lemma_i32_chars_parse(v: i32)
    ensures
        parse_i32_spec(i32_chars(v)) == Some(v),
{
    if v < 0 {
        let m = (-(v as int)) as nat;
        lemma_decimal_chars(m);
        let s = i32_chars(v);
        assert(s[0] == '-');
        assert(unsigned_part(s) =~= decimal_chars(m));
    } else {
        lemma_decimal_chars(v as nat);
        let s = decimal_chars(v as nat);
        assert(is_digit(s[0]));
        assert(unsigned_part(s) == s);
    }
}

proof fn lemma_find_long_first(t: Seq<OptionSpec>, k: int)
    requires
        0 <= k < t.len(),
        forall|i: int| 0 <= i < k ==> (#[trigger] t[i]).long@ != t[k].long@,
    ensures
        find_long(t, t[k].long@) == Some(t[k]),
    decreases k,
{
    if k > 0 {
        let rest = t.drop_first();
        assert forall|i: int| 0 <= i < k - 1 implies (#[trigger] rest[i]).long@ != rest[k - 1].long@ by {
            assert(rest[i] == t[i + 1]);
        }
        lemma_find_long_first(rest, k - 1);
    }
}

/// A delay outside 10..=1000 ms given as `--delay <d>` is refused, and the
/// refusal names the option, the value read and the accepted range.
pub proof fn lemma_delay_out_of_range_refused(args: Seq<Seq<char>>, d: i32)
    requires
        args.len() == 3,
        args[1] == "--delay"@,
        args[2] == i32_chars(d),
        d < 10 || d > 1000,
    ensures
        parse_args_spec(args) == Err::<CliActionModel, CliErrorModel>(
            CliErrorModel::ValueOutOfRange("--delay"@, d, 10, 1000),
        ),
{
    reveal_strlit("--delay");
    reveal_strlit("delay");
    reveal_strlit("--");
    let t = option_table();
    assert forall|i: int| 0 <= i < 9 implies (#[trigger] t[i]).long@ != t[9].long@ by {
        lemma_option_names_unique(i, 9);
    }
    lemma_find_long_first(t, 9);
    let arg = args[1];
    let body = arg.subrange(2, arg.len() as int);
    assert(body =~= "delay"@);
    lemma_first_index_of(body, '=', 5);
    assert(body.take(5) =~= body);
    assert("--"@ + body =~= "--delay"@);
    lemma_i32_chars_parse(d);
    assert(arg != "--"@);
}

/// Every flag of the option table other than help changes the default
/// configuration: no flag is accepted and then ignored.
pub proof fn lemma_flags_take_effect(i: int, option: Seq<char>, program: Seq<char>)
    requires
        0 <= i < option_table().len(),
        option_table()[i].arity == OptionArity::Flag,
        option_table()[i].id != OptionId::Help,
    ensures
        apply_flag_spec(default_config(), option_table()[i].id, option, program) matches Ok((c, None))
            && c != default_config(),
{
}

proof fn lemma_flag_keeps_telnet(config: Config, id: OptionId, option: Seq<char>, program: Seq<char>)
    requires
        config.telnet,
    ensures
        apply_flag_spec(config, id, option, program) matches Ok((c, None)) ==> c.telnet,
        apply_flag_spec(config, id, option, program) matches Ok((c, Some(a))) ==> a is Help,
{
}

proof fn lemma_value_step_keeps_telnet(config: Config, id: OptionId, option: Seq<char>, value: Seq<char>, took_next: bool)
    requires
        config.telnet,
    ensures
        value_step(config, id, option, value, took_next) matches StepModel::Next(c, _) ==> c.telnet,
        !(value_step(config, id, option, value, took_next) is Finish),
{
}

proof fn lemma_long_step_keeps_telnet(arg: Seq<char>, next: Option<Seq<char>>, config: Config, program: Seq<char>)
    requires
        config.telnet,
    ensures
        long_step(arg, next, config, program) matches StepModel::Next(c, _) ==> c.telnet,
        long_step(arg, next, config, program) matches StepModel::Finish(a) ==> a is Help,
{
    let body = arg.subrange(2, arg.len() as int);
    let split = first_index_of(body, '=');
    let name = body.take(split);
    let option = "--"@ + name;
    if let Some(spec) = find_long(option_table(), name) {
        if spec.arity == OptionArity::Value {
            lemma_value_step_keeps_telnet(config, spec.id, option, body.subrange(split + 1, body.len() as int), false);
            if let Some(v) = next {
                lemma_value_step_keeps_telnet(config, spec.id, option, v, true);
            }
        } else {
            lemma_flag_keeps_telnet(config, spec.id, option, program);
        }
    }
}

proof fn lemma_cluster_step_keeps_telnet(arg: Seq<char>, pos: int, next: Option<Seq<char>>, config: Config, program: Seq<char>)
    requires
        config.telnet,
    ensures
        cluster_step(arg, pos, next, config, program) matches StepModel::Next(c, _) ==> c.telnet,
        cluster_step(arg, pos, next, config, program) matches StepModel::Finish(a) ==> a is Help,
    decreases arg.len() - pos,
{
    if 0 <= pos < arg.len() {
        let short = short_name(arg[pos]);
        let option = "-"@.push(short);
        if let Some(spec) = find_short(option_table(), short) {
            if spec.arity == OptionArity::Value {
                lemma_value_step_keeps_telnet(config, spec.id, option, arg.subrange(pos + 1, arg.len() as int), false);
                if let Some(v) = next {
                    lemma_value_step_keeps_telnet(config, spec.id, option, v, true);
                }
            } else {
                lemma_flag_keeps_telnet(config, spec.id, option, program);
                if let Ok((c, None)) = apply_flag_spec(config, spec.id, option, program) {
                    lemma_cluster_step_keeps_telnet(arg, pos + 1, next, c, program);
                }
            }
        }
    }
}

proof fn lemma_parse_from_keeps_telnet(args: Seq<Seq<char>>, program: Seq<char>, i: int, config: Config)
    requires
        config.telnet,
    ensures
        parse_from(args, program, i, config) matches Ok(CliActionModel::Run(c)) ==> c.telnet,
    decreases args.len() + 1 - i,
{
    if 0 <= i < args.len() {
        let arg = args[i];
        if arg != "--"@ {
            if arg.len() >= 2 && arg[0] == '-' && arg[1] == '-' {
                lemma_long_step_keeps_telnet(arg, next_arg(args, i), config, program);
            } else if arg.len() > 1 && arg[0] == '-' {
                lemma_cluster_step_keeps_telnet(arg, 1, next_arg(args, i), config, program);
            }
            if let Some(StepModel::Next(c, took_next)) = arg_step(args, i, config, program) {
                lemma_parse_from_keeps_telnet(args, program, i + 1 + if took_next { 1int } else { 0 }, c);
            }
        }
    }
}

proof fn lemma_find_short_first(t: Seq<OptionSpec>, k: int)
    requires
        0 <= k < t.len(),
        forall|i: int| 0 <= i < k ==> (#[trigger] t[i]).short != t[k].short,
    ensures
        find_short(t, t[k].short) == Some(t[k]),
    decreases k,
{
    if k > 0 {
        let rest = t.drop_first();
        assert forall|i: int| 0 <= i < k - 1 implies (#[trigger] rest[i]).short != rest[k - 1].short by {
            assert(rest[i] == t[i + 1]);
        }
        lemma_find_short_first(rest, k - 1);
    }
}

/// A command line whose first argument is `--telnet` or `-t` runs, if it
/// runs at all, in telnet mode, whatever follows: the flag sets telnet mode
/// and no later option clears it.
pub proof fn lemma_telnet_flag_selects_telnet_mode(args: Seq<Seq<char>>)
    requires
        args.len() >= 2,
        args[1] == "--telnet"@ || args[1] == "-t"@,
    ensures
        parse_args_spec(args) matches Ok(CliActionModel::Run(c)) ==> c.telnet,
{
    reveal_strlit("--telnet");
    reveal_strlit("telnet");
    reveal_strlit("-t");
    reveal_strlit("--");
    let t = option_table();
    let program = program_name(args);
    let start = default_config();
    let arg = args[1];
    if arg == "--telnet"@ {
        assert forall|i: int| 0 <= i < 2 implies (#[trigger] t[i]).long@ != t[2].long@ by {
            lemma_option_names_unique(i, 2);
        }
        lemma_find_long_first(t, 2);
        let body = arg.subrange(2, arg.len() as int);
        assert(body =~= "telnet"@);
        lemma_first_index_of(body, '=', 6);
        assert(body.take(6) =~= body);
        assert(arg != "--"@);
        assert(long_step(arg, next_arg(args, 1), start, program)
            == StepModel::Next(Config { telnet: true, ..start }, false));
    } else {
        assert forall|i: int| 0 <= i < 2 implies (#[trigger] t[i]).short != t[2].short by {
            lemma_option_names_unique(i, 2);
        }
        lemma_find_short_first(t, 2);
        assert(arg[1] == 't');
        assert(short_name('t') == 't');
        assert(arg != "--"@);
        assert(cluster_step(arg, 2, next_arg(args, 1), Config { telnet: true, ..start }, program)
            == StepModel::Next(Config { telnet: true, ..start }, false));
        assert(cluster_step(arg, 1, next_arg(args, 1), start, program)
            == StepModel::Next(Config { telnet: true, ..start }, false));
    }
    lemma_parse_from_keeps_telnet(args, program, 2, Config { telnet: true, ..start });
}

} // verus!
