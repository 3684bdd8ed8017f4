use vstd::prelude::*;
use vstd::string::StrSliceExecFns;

verus! {

/// The rendering mode chosen for a terminal: which colour escapes (or ASCII
/// art) and which cell glyph the animation is drawn with.
#[derive(Clone, Copy, Debug, PartialEq, Eq, Structural)]
pub enum TerminalType {
    Xterm256,
    Ansi16,
    Linux,
    Fallback,
    Vtnt,
    Vt220,
    Vt100Ascii,
    TrueColor,
}

/// The size of a terminal, in character cells.
#[derive(Clone, Copy, Debug, PartialEq, Eq, Structural)]
pub struct TerminalSize {
    pub width: i32,
    pub height: i32,
}

impl TerminalSize {
    pub fn new(width: i32, height: i32) -> (r: Self)
        ensures
            r.width == width,
            r.height == height,
    {
        TerminalSize { width, height }
    }

    /// A size reported by a peer; a zero (or negative) dimension is no size.
    pub fn try_new(width: i32, height: i32) -> (r: Option<Self>)
        ensures
            r == (if width > 0 && height > 0 {
                Some(TerminalSize { width, height })
            } else {
                None
            }),
    {
        if width > 0 && height > 0 {
            Some(TerminalSize { width, height })
        } else {
            None
        }
    }

    pub fn with_width(self, width: i32) -> (r: Self)
        ensures
            r.width == width,
            r.height == self.height,
    {
        TerminalSize { width, height: self.height }
    }
}

impl Default for TerminalSize {
    /// The classic 80x24 terminal.
    fn default() -> (r: Self)
        ensures
            r.width == 80,
            r.height == 24,
    {
        TerminalSize { width: 80, height: 24 }
    }
}

/// ASCII upper-case letters mapped to lower case, every other character kept.
pub open spec fn ascii_lower_char(c: char) -> char {
    if 'A' <= c && c <= 'Z' {
        ((c as u32) + 32) as char
    } else {
        c
    }
}

pub open spec fn ascii_lower(s: Seq<char>) -> Seq<char> {
    s.map_values(|c: char| ascii_lower_char(c))
}

/// `pattern` occurs in `s` as a contiguous run.
pub open spec fn has_infix(s: Seq<char>, pattern: Seq<char>) -> bool {
    exists|i: int| 0 <= i && i + pattern.len() <= s.len() && #[trigger] s.subrange(i, i + pattern.len()) == pattern
}

/// `s` begins with `pattern`.
pub open spec fn has_prefix(s: Seq<char>, pattern: Seq<char>) -> bool {
    pattern.len() <= s.len() && s.subrange(0, pattern.len() as int) == pattern
}

/// The rendering mode for a `TERM` value (already lower-cased) and the
/// terminal width; the first matching rule decides.
pub open spec fn terminal_type_of(term: Seq<char>, width: i32) -> TerminalType {
    if has_infix(term, "xterm"@) || has_infix(term, "toaru"@) {
        TerminalType::Xterm256
    } else if has_infix(term, "linux"@) {
        TerminalType::Linux
    } else if has_infix(term, "vtnt"@) || has_infix(term, "cygwin"@) {
        TerminalType::Vtnt
    } else if has_infix(term, "vt220"@) {
        TerminalType::Vt220
    } else if has_infix(term, "fallback"@) {
        TerminalType::Fallback
    } else if has_infix(term, "rxvt-256color"@) {
        TerminalType::Xterm256
    } else if has_infix(term, "rxvt"@) {
        TerminalType::Linux
    } else if has_infix(term, "vt100"@) && width == 40 {
        TerminalType::Vt100Ascii
    } else if has_prefix(term, "st"@) {
        TerminalType::Xterm256
    } else if has_prefix(term, "truecolor"@) {
        TerminalType::TrueColor
    } else {
        TerminalType::Ansi16
    }
}

fn lower_char(c: char) -> (r: char)
    ensures
        r == ascii_lower_char(c),
{
    if 'A' <= c && c <= 'Z' {
        let code: u8 = c as u8;
        ((code + 32) as char)
    } else {
        c
    }
}

/// The characters of `s`, ASCII-lower-cased.
pub fn to_ascii_lowercase(s: &str) -> (r: Vec<char>)
    ensures
        r@ == ascii_lower(s@),
{
    let n = s.unicode_len();
    let mut out: Vec<char> = Vec::new();
    let mut i: usize = 0;
    while i < n
        invariant
            n == s@.len(),
            i <= n,
            out@ == ascii_lower(s@.subrange(0, i as int)),
        decreases n - i,
    {
        let c = s.get_char(i);
        out.push(lower_char(c));
        i = i + 1;
        assert(out@ =~= ascii_lower(s@.subrange(0, i as int)));
    }
    assert(s@.subrange(0, n as int) =~= s@);
    out
}

/// Whether `pattern` matches `hay` at position `at`.
fn matches_at(hay: &Vec<char>, pattern: &str, at: usize) -> (r: bool)
    requires
        at + pattern@.len() <= hay@.len(),
    ensures
        r == (hay@.subrange(at as int, at + pattern@.len()) == pattern@),
{
    let m = pattern.unicode_len();
    let n = hay.len();
    let mut j: usize = 0;
    while j < m
        invariant
            m == pattern@.len(),
            n == hay@.len(),
            at + m <= hay@.len(),
            j <= m,
            forall|k: int| 0 <= k < j ==> hay@[at + k] == pattern@[k],
        decreases m - j,
    {
        assert(at + j < hay@.len());
        if hay[at + j] != pattern.get_char(j) {
            assert(hay@.subrange(at as int, at + m)[j as int] != pattern@[j as int]);
            return false;
        }
        j = j + 1;
    }
    assert(hay@.subrange(at as int, at + m) =~= pattern@);
    true
}

/// Whether `pattern` occurs anywhere in `hay`.
pub fn contains_pattern(hay: &Vec<char>, pattern: &str) -> (r: bool)
    ensures
        r == has_infix(hay@, pattern@),
{
    let m = pattern.unicode_len();
    let n = hay.len();
    if m > n {
        return false;
    }
    if m == 0 {
        assert(hay@.subrange(0int, 0int + pattern@.len()) =~= pattern@);
        return true;
    }
    let mut i: usize = 0;
    while i <= n - m
        invariant
            m == pattern@.len(),
            n == hay@.len(),
            0 < m <= n,
            i <= n - m + 1,
            forall|k: int| 0 <= k < i ==> #[trigger] hay@.subrange(k, k + m) != pattern@,
        decreases n - i,
    {
        if matches_at(hay, pattern, i) {
            return true;
        }
        i = i + 1;
    }
    false
}

/// Whether `hay` begins with `pattern`.
pub fn starts_with_pattern(hay: &Vec<char>, pattern: &str) -> (r: bool)
    ensures
        r == has_prefix(hay@, pattern@),
{
    let m = pattern.unicode_len();
    if m > hay.len() {
        return false;
    }
    matches_at(hay, pattern, 0)
}

/// The rendering mode for the `TERM` value `term` (none: plain ANSI colours)
/// on a terminal of the given size.
pub fn detect_terminal_type(term: Option<&str>, size: TerminalSize) -> (r: TerminalType)
    ensures
        r == (match term {
            None => TerminalType::Ansi16,
            Some(t) => terminal_type_of(ascii_lower(t@), size.width),
        }),
{
    let term = match term {
        None => return TerminalType::Ansi16,
        Some(t) => to_ascii_lowercase(t),
    };
    if contains_pattern(&term, "xterm") || contains_pattern(&term, "toaru") {
        TerminalType::Xterm256
    } else if contains_pattern(&term, "linux") {
        TerminalType::Linux
    } else if contains_pattern(&term, "vtnt") || contains_pattern(&term, "cygwin") {
        TerminalType::Vtnt
    } else if contains_pattern(&term, "vt220") {
        TerminalType::Vt220
    } else if contains_pattern(&term, "fallback") {
        TerminalType::Fallback
    } else if contains_pattern(&term, "rxvt-256color") {
        TerminalType::Xterm256
    } else if contains_pattern(&term, "rxvt") {
        TerminalType::Linux
    } else if contains_pattern(&term, "vt100") && size.width == 40 {
        TerminalType::Vt100Ascii
    } else if starts_with_pattern(&term, "st") {
        TerminalType::Xterm256
    } else if starts_with_pattern(&term, "truecolor") {
        TerminalType::TrueColor
    } else {
        TerminalType::Ansi16
    }
}

/// The rendering mode and drawing size for a session: 24-bit colour when
/// asked for, else the mode `TERM` names; the 40-column VT100 mode always

/// A `TERM` naming the fallback mode (as the telnet intro advises,
/// `TERM=fallback`) is drawn in that mode, unless it also names one of the
/// terminals checked before it (xterm, toaru, linux, vtnt, cygwin, vt220).
/// The mode does not depend on the width.
pub proof fn lemma_fallback_term_gets_fallback_mode(term: Seq<char>, width: i32)
    requires
        has_infix(ascii_lower(term), "fallback"@),
        !has_infix(ascii_lower(term), "xterm"@),
        !has_infix(ascii_lower(term), "toaru"@),
        !has_infix(ascii_lower(term), "linux"@),
        !has_infix(ascii_lower(term), "vtnt"@),
        !has_infix(ascii_lower(term), "cygwin"@),
        !has_infix(ascii_lower(term), "vt220"@),
    ensures
        terminal_type_of(ascii_lower(term), width) == TerminalType::Fallback,
{
}

/// draws 40 columns.
pub open spec fn session_terminal_spec(truecolor: bool, term: Option<Seq<char>>, size: TerminalSize) -> (TerminalType, TerminalSize) {
    let t = if truecolor {
        TerminalType::TrueColor
    } else {
        match term {
            None => TerminalType::Ansi16,
            Some(name) => terminal_type_of(ascii_lower(name), size.width),
        }
    };
    (t, if t == TerminalType::Vt100Ascii { TerminalSize { width: 40, ..size } } else { size })
}

pub open spec fn option_str(term: Option<&str>) -> Option<Seq<char>> {
    match term {
        Some(t) => Some(t@),
        None => None,
    }
}

/// Picks the rendering mode and drawing size for a session.
pub fn session_terminal(truecolor: bool, term: Option<&str>, size: TerminalSize) -> (r: (TerminalType, TerminalSize))
    ensures
        r == session_terminal_spec(truecolor, option_str(term), size),
{
    let terminal_type = if truecolor {
        TerminalType::TrueColor
    } else {
        detect_terminal_type(term, size)
    };
    if terminal_type == TerminalType::Vt100Ascii {
        (terminal_type, size.with_width(40))
    } else {
        (terminal_type, size)
    }
}

/// The terminal size from a `TIOCGWINSZ` query that returned `rc` and
/// filled in `columns` and `rows`: the standard 80x24 unless the query
/// succeeded with both dimensions non-zero.
pub fn terminal_size(rc: i32, columns: u16, rows: u16) -> (r: TerminalSize)
    ensures
        r == (if rc == 0 && columns > 0 && rows > 0 {
            TerminalSize { width: columns as i32, height: rows as i32 }
        } else {
            TerminalSize { width: 80, height: 24 }
        }),
{
    if rc == 0 && columns > 0 && rows > 0 {
        TerminalSize::new(columns as i32, rows as i32)
    } else {
        TerminalSize::default()
    }
}

} // verus!
