use vstd::prelude::*;
use crate::animation::{all_frame_symbols, frame_cells, frames_well_formed, is_frame_symbol, Animation, FrameSymbol, FRAME_HEIGHT, FRAME_WIDTH};
use crate::cli::{Config, bound_or_auto, trunc_div};
use crate::terminal::TerminalSize;
use crate::render::frame_buffer::{FrameBuffer, frame_prefix_bytes, newline_bytes, repeat_bytes, text};
use crate::render::palette::{palette_symbols, Palette};

pub mod benchmark;
pub mod frame_buffer;
pub mod palette;
pub mod render_loop;

verus! {

/// The columns shown when the width follows a terminal `width` cells wide:
/// one animation column takes two terminal cells.
pub open spec fn auto_cols(width: i32) -> (int, int) {
    (trunc_div(64 - trunc_div(width as int, 2), 2), trunc_div(64 + trunc_div(width as int, 2), 2))
}

/// The rows shown when the height follows a terminal `height` rows high; one
/// row is left for the counter.
pub open spec fn auto_rows(height: i32) -> (int, int) {
    (trunc_div(64 - (height - 1), 2), trunc_div(64 + (height - 1), 2))
}

/// The automatic columns fit the terminal: each animation column takes two
/// cells, so at most `width` cells are drawn, and for a terminal up to 129
/// cells wide the drawn columns fill it, but for one cell when the width is
/// odd. The window is
/// centred on the frame's middle column.
pub proof fn lemma_auto_cols_fit(width: i32)
    requires
        width >= 0,
    ensures
        2 * (auto_cols(width).1 - auto_cols(width).0) <= width,
        width <= 129 ==> 2 * (auto_cols(width).1 - auto_cols(width).0) >= width - 1,
        63 <= auto_cols(width).0 + auto_cols(width).1 <= 64,
{
    let h = trunc_div(width as int, 2);
    assert(h == width / 2);
    assert(0 <= h && 2 * h <= width && 2 * h >= width - 1);
    if h <= 64 {
        assert(trunc_div(64 - h, 2) == (64 - h) / 2);
        assert(trunc_div(64 + h, 2) == (64 + h) / 2);
    } else {
        assert(trunc_div(64 - h, 2) == -((h - 64) / 2));
        assert(trunc_div(64 + h, 2) == (64 + h) / 2);
    }
}

/// The automatic rows fit the terminal with a line to spare for the
/// counter: at most `height - 1` rows are drawn, and for a terminal up to
/// 65 rows high the drawn rows fill all but that line. The window is
/// centred on the frame's middle row.
pub proof fn lemma_auto_rows_fit(height: i32)
    requires
        height >= 1,
    ensures
        auto_rows(height).1 - auto_rows(height).0 <= height - 1,
        height <= 65 ==> auto_rows(height).1 - auto_rows(height).0 == height - 1,
        63 <= auto_rows(height).0 + auto_rows(height).1 <= 64,
{
    let s = height - 1;
    if s <= 64 {
        assert(trunc_div(64 - s, 2) == (64 - s) / 2);
        assert(trunc_div(64 + s, 2) == (64 + s) / 2);
    } else {
        assert(trunc_div(64 - s, 2) == -((s - 64) / 2));
        assert(trunc_div(64 + s, 2) == (64 + s) / 2);
    }
}

/// The part of the animation to draw and the terminal it is drawn on; an
/// axis whose crop was left automatic follows the terminal size.
pub struct RenderState {
    terminal_size: TerminalSize,
    min_row: i32,
    max_row: i32,
    min_col: i32,
    max_col: i32,
    using_automatic_width: bool,
    using_automatic_height: bool,
}

impl RenderState {
    pub closed spec fn size(self) -> TerminalSize {
        self.terminal_size
    }

    /// First and one-past-last row drawn.
    pub closed spec fn rows(self) -> (i32, i32) {
        (self.min_row, self.max_row)
    }

    /// First and one-past-last column drawn.
    pub closed spec fn cols(self) -> (i32, i32) {
        (self.min_col, self.max_col)
    }

    pub closed spec fn automatic_width(self) -> bool {
        self.using_automatic_width
    }

    pub closed spec fn automatic_height(self) -> bool {
        self.using_automatic_height
    }

    /// The crop given in `config` on a terminal of `terminal_size`; an axis
    /// whose two bounds are equal is marked automatic.
    pub fn new(config: &Config, terminal_size: TerminalSize) -> (r: Self)
        ensures
            r.size() == terminal_size,
            r.rows() == (bound_or_auto(config.crop.rows.min), bound_or_auto(config.crop.rows.max)),
            r.cols() == (bound_or_auto(config.crop.cols.min), bound_or_auto(config.crop.cols.max)),
            r.automatic_width() == (bound_or_auto(config.crop.cols.min) == bound_or_auto(config.crop.cols.max)),
            r.automatic_height() == (bound_or_auto(config.crop.rows.min) == bound_or_auto(config.crop.rows.max)),
    {
        let rows = config.crop.rows;
        let cols = config.crop.cols;
        RenderState {
            terminal_size,
            min_row: rows.min_or_default(),
            max_row: rows.max_or_default(),
            min_col: cols.min_or_default(),
            max_col: cols.max_or_default(),
            using_automatic_width: cols.is_automatic_range(),
            using_automatic_height: rows.is_automatic_range(),
        }
    }

    /// Sizes the automatic axes from the terminal.
    pub fn finalize_auto_crop(&mut self)
        ensures
            final(self).size() == old(self).size(),
            final(self).automatic_width() == old(self).automatic_width(),
            final(self).automatic_height() == old(self).automatic_height(),
            final(self).cols() == if old(self).automatic_width() {
                (auto_cols(old(self).size().width).0 as i32, auto_cols(old(self).size().width).1 as i32)
            } else {
                old(self).cols()
            },
            final(self).rows() == if old(self).automatic_height() {
                (auto_rows(old(self).size().height).0 as i32, auto_rows(old(self).size().height).1 as i32)
            } else {
                old(self).rows()
            },
            old(self).automatic_width() ==> final(self).cols().0 == auto_cols(old(self).size().width).0
                && final(self).cols().1 == auto_cols(old(self).size().width).1,
            old(self).automatic_height() ==> final(self).rows().0 == auto_rows(old(self).size().height).0
                && final(self).rows().1 == auto_rows(old(self).size().height).1,
    {
        if self.using_automatic_width {
            self.recalculate_width();
        }
        if self.using_automatic_height {
            self.recalculate_height();
        }
    }

    /// Takes a new terminal size (after a resize) and re-sizes the automatic
    /// axes; a crop given explicitly stays as it was.
    pub fn update_terminal_size(&mut self, size: TerminalSize)
        ensures
            final(self).size() == size,
            final(self).automatic_width() == old(self).automatic_width(),
            final(self).automatic_height() == old(self).automatic_height(),
            final(self).cols() == if old(self).automatic_width() {
                (auto_cols(size.width).0 as i32, auto_cols(size.width).1 as i32)
            } else {
                old(self).cols()
            },
            final(self).rows() == if old(self).automatic_height() {
                (auto_rows(size.height).0 as i32, auto_rows(size.height).1 as i32)
            } else {
                old(self).rows()
            },
            old(self).automatic_width() ==> final(self).cols().0 == auto_cols(size.width).0
                && final(self).cols().1 == auto_cols(size.width).1,
            old(self).automatic_height() ==> final(self).rows().0 == auto_rows(size.height).0
                && final(self).rows().1 == auto_rows(size.height).1,
    {
        self.terminal_size = size;
        if self.using_automatic_width {
            self.recalculate_width();
        }
        if self.using_automatic_height {
            self.recalculate_height();
        }
    }

    /// Centres the columns on the animation, as many as the terminal shows.
    pub fn recalculate_width(&mut self)
        ensures
            final(self).size() == old(self).size(),
            final(self).rows() == old(self).rows(),
            final(self).automatic_width() == old(self).automatic_width(),
            final(self).automatic_height() == old(self).automatic_height(),
            final(self).cols().0 == auto_cols(old(self).size().width).0,
            final(self).cols().1 == auto_cols(old(self).size().width).1,
    {
        let half: i32 = self.terminal_size.width / 2;
        self.min_col = (FRAME_WIDTH as i32 - half) / 2;
        self.max_col = (FRAME_WIDTH as i32 + half) / 2;
    }

    /// Centres the rows on the animation, as many as the terminal shows
    /// above the counter line.
    pub fn recalculate_height(&mut self)
        ensures
            final(self).size() == old(self).size(),
            final(self).cols() == old(self).cols(),
            final(self).automatic_width() == old(self).automatic_width(),
            final(self).automatic_height() == old(self).automatic_height(),
            final(self).rows().0 == auto_rows(old(self).size().height).0,
            final(self).rows().1 == auto_rows(old(self).size().height).1,
    {
        let shown: i64 = self.terminal_size.height as i64 - 1;
        self.min_row = ((FRAME_HEIGHT as i64 - shown) / 2) as i32;
        self.max_row = ((FRAME_HEIGHT as i64 + shown) / 2) as i32;
    }

    pub fn terminal_size(&self) -> (r: TerminalSize)
        ensures
            r == self.size(),
    {
        self.terminal_size
    }
}

/// The rainbow trail, top to bottom, drawn left of the frame.
pub open spec fn rainbow_bytes() -> Seq<u8> {
    text(",,>>&&&+++###==;;;,,")
}

/// The symbol drawn at column `x`, row `y` in frame `frame_index`: the waving
/// rainbow trail left of the frame between rows 24 and 42, background
/// outside the frame, the frame's own symbol inside it.
pub open spec fn cell_symbol(frames: Seq<Seq<u8>>, frame_index: int, x: int, y: int) -> u8 {
    if 23 < y && y < 43 && x < 0 {
        let base = ((-x + 2) % 16) / 8;
        let wave = if (frame_index / 2) % 2 == 1 { 1 - base } else { base };
        let index = wave + y - 23;
        if 0 <= index < rainbow_bytes().len() {
            rainbow_bytes()[index]
        } else {
            0x2cu8
        }
    } else if !(0 <= y < 64) || !(0 <= x < 64) {
        0x2cu8
    } else {
        frames[frame_index][y * 64 + x]
    }
}

/// Every cell drawn from a well-formed animation, the rainbow trail and the
/// background around the frame included, is a frame symbol, one that every
/// palette has an entry for.
pub proof fn lemma_drawn_cells_are_symbols(frames: Seq<Seq<u8>>, frame_index: int, x: int, y: int)
    requires
        frames_well_formed(frames),
        0 <= frame_index < frames.len(),
    ensures
        is_frame_symbol(cell_symbol(frames, frame_index, x, y)),
{
    reveal_strlit(",,>>&&&+++###==;;;,,");
    assert(vstd::string::is_ascii(",,>>&&&+++###==;;;,,"));
    vstd::string::is_ascii_spec_bytes(",,>>&&&+++###==;;;,,");
    let rainbow = rainbow_bytes();
    assert(rainbow =~= seq![0x2cu8, 0x2cu8, 0x3eu8, 0x3eu8, 0x26u8, 0x26u8, 0x26u8, 0x2bu8, 0x2bu8, 0x2bu8, 0x23u8, 0x23u8, 0x23u8, 0x3du8, 0x3du8, 0x3bu8, 0x3bu8, 0x3bu8, 0x2cu8, 0x2cu8]);
    assert(palette_symbols()[0] == 0x2cu8);
    assert(palette_symbols()[6] == 0x3eu8);
    assert(palette_symbols()[7] == 0x26u8);
    assert(palette_symbols()[8] == 0x2bu8);
    assert(palette_symbols()[9] == 0x23u8);
    assert(palette_symbols()[10] == 0x3du8);
    assert(palette_symbols()[11] == 0x3bu8);
    let c = cell_symbol(frames, frame_index, x, y);
    if 23 < y && y < 43 && x < 0 {
    } else if !(0 <= y < 64) || !(0 <= x < 64) {
    } else {
        assert(0 <= y * 64 + x < 4096) by (nonlinear_arith)
            requires 0 <= y < 64, 0 <= x < 64;
        assert(frames[frame_index].len() == frame_cells() && all_frame_symbols(frames[frame_index]));
    }
}

/// One cell: its colour escape when the colour changes (the escape is then
/// remembered as the current colour), then the glyph; in the ASCII art modes
/// the symbol's art alone. Returns the bytes and the current colour after.
pub open spec fn cell_bytes(palette: Palette, symbol: u8, last: u8) -> (Seq<u8>, u8) {
    match palette.output_of() {
        Some(glyph) => {
            let escape = palette.color_of(symbol);
            if symbol != last && escape.len() > 0 {
                (escape + glyph, symbol)
            } else {
                (glyph, last)
            }
        },
        None => (palette.color_of(symbol), last),
    }
}

/// Columns `min_col` up to (not including) `end_col` of row `y`.
pub open spec fn row_bytes(
    palette: Palette,
    frames: Seq<Seq<u8>>,
    frame_index: int,
    y: int,
    min_col: int,
    end_col: int,
    last: u8,
) -> (Seq<u8>, u8)
    decreases end_col - min_col,
{
    if end_col <= min_col {
        (Seq::empty(), last)
    } else {
        let before = row_bytes(palette, frames, frame_index, y, min_col, end_col - 1, last);
        let cell = cell_bytes(palette, cell_symbol(frames, frame_index, end_col - 1, y), before.1);
        (before.0 + cell.0, cell.1)
    }
}

/// Rows `min_row` up to (not including) `end_row`, each ended by a newline;
/// the current colour carries over from row to row.
pub open spec fn rows_bytes(
    palette: Palette,
    frames: Seq<Seq<u8>>,
    frame_index: int,
    telnet: bool,
    min_row: int,
    end_row: int,
    min_col: int,
    max_col: int,
    last: u8,
) -> (Seq<u8>, u8)
    decreases end_row - min_row,
{
    if end_row <= min_row {
        (Seq::empty(), last)
    } else {
        let before = rows_bytes(palette, frames, frame_index, telnet, min_row, end_row - 1, min_col, max_col, last);
        let row = row_bytes(palette, frames, frame_index, end_row - 1, min_col, max_col, before.1);
        (before.0 + row.0 + newline_bytes(telnet), row.1)
    }
}

/// The decimal digits of `n`.
pub open spec fn decimal_bytes(n: nat) -> Seq<u8>
    decreases n,
{
    if n < 10 {
        seq![(0x30 + n) as u8]
    } else {
        decimal_bytes(n / 10).push((0x30 + n % 10) as u8)
    }
}

/// The counter line, centred on a terminal `width` cells wide.
pub open spec fn counter_bytes(width: i32, seconds: u64) -> Seq<u8> {
    let pad = trunc_div(width - 29 - decimal_bytes(seconds as nat).len(), 2);
    repeat_bytes(seq![0x20u8], if pad > 0 { pad as nat } else { 0 })
        + text("\x1b[1;37m") + text("You have nyaned for ") + decimal_bytes(seconds as nat)
        + text(" seconds!") + text("\x1b[J\x1b[0m")
}

/// A whole frame: the cropped rows, then the counter when it is shown.
pub open spec fn frame_bytes(
    config: Config,
    state: RenderState,
    palette: Palette,
    frames: Seq<Seq<u8>>,
    frame_index: int,
    elapsed_seconds: u64,
) -> Seq<u8> {
    rows_bytes(
        palette,
        frames,
        frame_index,
        config.telnet,
        state.rows().0 as int,
        state.rows().1 as int,
        state.cols().0 as int,
        state.cols().1 as int,
        0,
    ).0 + if config.show_counter {
        counter_bytes(state.size().width, elapsed_seconds)
    } else {
        Seq::empty()
    }
}

pub open spec fn pow10(k: nat) -> nat
    decreases k,
{
    if k == 0 {
        1
    } else {
        10 * pow10((k - 1) as nat)
    }
}

proof fn lemma_decimal_len_le(n: nat, k: nat)
    requires
        k >= 1,
        n < pow10(k),
    ensures
        decimal_bytes(n).len() <= k,
    decreases k,
{
    if n >= 10 {
        let p = pow10((k - 1) as nat);
        assert(k >= 2) by {
            if k == 1 {
                assert(pow10(1) == 10) by {
                    reveal_with_fuel(pow10, 2);
                }
            }
        }
        assert(n / 10 < p) by (nonlinear_arith)
            requires n < 10 * p;
        lemma_decimal_len_le(n / 10, (k - 1) as nat);
    }
}

proof fn lemma_decimal_len_u64(n: u64)
    ensures
        1 <= decimal_bytes(n as nat).len() <= 20,
{
    assert(pow10(20) == 100000000000000000000nat) by {
        reveal_with_fuel(pow10, 21);
    }
    lemma_decimal_len_le(n as nat, 20);
}

/// Appends the decimal digits of `n`.
pub fn push_decimal(out: &mut FrameBuffer, n: u64)
    ensures
        final(out)@ == old(out)@ + decimal_bytes(n as nat),
    decreases n,
{
    if n >= 10 {
        push_decimal(out, n / 10);
    }
    out.push_byte((0x30 + n % 10) as u8);
    assert(final(out)@ =~= old(out)@ + decimal_bytes(n as nat));
}

/// The number of decimal digits of `n`.
pub fn decimal_len(n: u64) -> (r: usize)
    ensures
        r == decimal_bytes(n as nat).len(),
        r <= 20,
    decreases n,
{
    proof {
        lemma_decimal_len_u64(n);
    }
    if n >= 10 {
        decimal_len(n / 10) + 1
    } else {
        1
    }
}

/// The symbol to draw at column `x`, row `y` of frame `frame_index`.
pub fn frame_symbol_at(animation: &Animation, frame_index: usize, x: i32, y: i32) -> (r: FrameSymbol)
    requires
        animation.wf(),
        frame_index < animation.frames().len(),
    ensures
        r@ == cell_symbol(animation.frames(), frame_index as int, x as int, y as int),
{
    if y > 23 && y < 43 && x < 0 {
        let rainbow = ",,>>&&&+++###==;;;,,".as_bytes();
        let base: i64 = ((2 - x as i64) % 16) / 8;
        let wave: i64 = if (frame_index / 2) % 2 == 1 { 1 - base } else { base };
        let index: i64 = wave + y as i64 - 23;
        assert(1 <= index <= 20);
        if (index as usize) < rainbow.len() {
            FrameSymbol::new(rainbow[index as usize])
        } else {
            FrameSymbol::new(0x2c)
        }
    } else if y < 0 || y >= FRAME_HEIGHT as i32 || x < 0 || x >= FRAME_WIDTH as i32 {
        FrameSymbol::new(0x2c)
    } else {
        animation.symbol(frame_index, x as usize, y as usize)
    }
}

/// Draws frame `frame_index` of `animation`, cropped to `state` and coloured
/// with `palette`, into `out`, followed by the counter showing
/// `elapsed_seconds` unless `config` hides it.
pub fn render_frame(
    out: &mut FrameBuffer,
    config: &Config,
    state: &RenderState,
    palette: &Palette,
    animation: &Animation,
    frame_index: usize,
    elapsed_seconds: u64,
)
    requires
        palette.wf(),
        animation.wf(),
        frame_index < animation.frames().len(),
    ensures
        final(out)@ == old(out)@ + frame_bytes(*config, *state, *palette, animation.frames(), frame_index as int, elapsed_seconds),
{
    let ghost frames = animation.frames();
    let min_row = state.min_row;
    let max_row = state.max_row;
    let min_col = state.min_col;
    let max_col = state.max_col;
    let ghost start = out@;
    let mut last: u8 = 0;
    let mut y: i32 = min_row;
    while y < max_row
        invariant
            palette.wf(),
            animation.wf(),
            frames == animation.frames(),
            frame_index < frames.len(),
            min_row == state.rows().0,
            max_row == state.rows().1,
            min_col == state.cols().0,
            max_col == state.cols().1,
            min_row <= y,
            y <= max_row || y == min_row,
            ({
                let done = rows_bytes(*palette, frames, frame_index as int, config.telnet, min_row as int, y as int, min_col as int, max_col as int, 0);
                out@ == start + done.0 && last == done.1
            }),
        decreases max_row - y,
    {
        let ghost row_start = out@;
        let ghost last_start = last;
        let mut x: i32 = min_col;
        while x < max_col
            invariant
                palette.wf(),
                animation.wf(),
                frames == animation.frames(),
                frame_index < frames.len(),
                min_col <= x,
                x <= max_col || x == min_col,
                ({
                    let done = row_bytes(*palette, frames, frame_index as int, y as int, min_col as int, x as int, last_start);
                    out@ == row_start + done.0 && last == done.1
                }),
            decreases max_col - x,
        {
            let symbol = frame_symbol_at(animation, frame_index, x, y);
            match palette.output() {
                Some(glyph) => {
                    let escape = palette.color(symbol);
                    if symbol.as_byte() != last && escape.len() > 0 {
                        last = symbol.as_byte();
                        out.push_bytes(escape);
                    }
                    out.push_bytes(glyph);
                },
                None => {
                    out.push_bytes(palette.color(symbol));
                },
            }
            proof {
                let before = row_bytes(*palette, frames, frame_index as int, y as int, min_col as int, x as int, last_start);
                let cell = cell_bytes(*palette, cell_symbol(frames, frame_index as int, x as int, y as int), before.1);
                assert(row_bytes(*palette, frames, frame_index as int, y as int, min_col as int, x + 1, last_start)
                    == (before.0 + cell.0, cell.1));
                assert(out@ =~= row_start + (before.0 + cell.0));
            }
            x = x + 1;
        }
        out.push_newlines(config.telnet, 1);
        proof {
            let before = rows_bytes(*palette, frames, frame_index as int, config.telnet, min_row as int, y as int, min_col as int, max_col as int, 0);
            let row = row_bytes(*palette, frames, frame_index as int, y as int, min_col as int, max_col as int, before.1);
            assert(row_bytes(*palette, frames, frame_index as int, y as int, min_col as int, x as int, last_start) == row);
            assert(repeat_bytes(newline_bytes(config.telnet), 1) =~= newline_bytes(config.telnet)) by {
                assert(repeat_bytes(newline_bytes(config.telnet), 0) =~= Seq::<u8>::empty());
            }
            assert(out@ =~= start + (before.0 + row.0 + newline_bytes(config.telnet)));
        }
        y = y + 1;
    }
    if config.show_counter {
        let digits = decimal_len(elapsed_seconds);
        let pad: i64 = (state.terminal_size.width as i64 - 29 - digits as i64) / 2;
        out.push_spaces(pad as i32);
        out.push_bytes("\x1b[1;37m".as_bytes());
        out.push_bytes("You have nyaned for ".as_bytes());
        push_decimal(out, elapsed_seconds);
        out.push_bytes(" seconds!".as_bytes());
        out.push_bytes("\x1b[J\x1b[0m".as_bytes());
    }
    assert(out@ =~= start + frame_bytes(*config, *state, *palette, frames, frame_index as int, elapsed_seconds));
}

/// Fills `buffer` with the next frame: the frame prefix, then the frame.
pub fn render_next_frame(
    buffer: &mut FrameBuffer,
    config: &Config,
    state: &RenderState,
    palette: &Palette,
    animation: &Animation,
    frame_index: usize,
    elapsed_seconds: u64,
)
    requires
        palette.wf(),
        animation.wf(),
        frame_index < animation.frames().len(),
    ensures
        final(buffer)@ == frame_prefix_bytes(config.clear_screen)
            + frame_bytes(*config, *state, *palette, animation.frames(), frame_index as int, elapsed_seconds),
{
    buffer.clear();
    buffer.push_frame_prefix(config.clear_screen);
    render_frame(buffer, config, state, palette, animation, frame_index, elapsed_seconds);
}

/// The terminal title escapes (screen, icon name, window title).
pub open spec fn title_bytes() -> Seq<u8> {
    text("\x1bkNyanyanyanyanyanyanya...\x1b\\") + text("\x1b]1;Nyanyanyanyanyanyanya...\x07")
        + text("\x1b]2;Nyanyanyanyanyanyanya...\x07")
}

/// Clears the screen and hides the cursor.
pub open spec fn clear_screen_bytes() -> Seq<u8> {
    text("\x1b[H\x1b[2J\x1b[?25l")
}

/// What is sent before the first frame: the title unless disabled, then a
/// cleared screen, or a saved cursor position when the screen is kept.
pub open spec fn startup_bytes(config: Config) -> Seq<u8> {
    (if config.set_title { title_bytes() } else { Seq::empty() }) + if config.clear_screen {
        clear_screen_bytes()
    } else {
        text("\x1b[s")
    }
}

/// The bytes sent before the first frame.
pub fn push_startup(out: &mut FrameBuffer, config: &Config)
    ensures
        final(out)@ == old(out)@ + startup_bytes(*config),
{
    if config.set_title {
        out.push_bytes("\x1bkNyanyanyanyanyanyanya...\x1b\\".as_bytes());
        out.push_bytes("\x1b]1;Nyanyanyanyanyanyanya...\x07".as_bytes());
        out.push_bytes("\x1b]2;Nyanyanyanyanyanyanya...\x07".as_bytes());
    }
    if config.clear_screen {
        out.push_bytes("\x1b[H\x1b[2J\x1b[?25l".as_bytes());
    } else {
        out.push_bytes("\x1b[s".as_bytes());
    }
    assert(out@ =~= old(out)@ + startup_bytes(*config));
}

/// What restores the terminal on exit: the cursor shown, attributes reset
/// and the screen cleared; or, when the screen was kept, attributes reset
/// and a new line.
pub open spec fn exit_bytes(clear_screen: bool) -> Seq<u8> {
    if clear_screen {
        text("\x1b[?25h\x1b[0m\x1b[H\x1b[2J")
    } else {
        text("\x1b[0m\n")
    }
}

/// The bytes that restore the terminal on exit.
pub fn exit_sequence(clear_screen: bool) -> (r: &'static [u8])
    ensures
        r@ == exit_bytes(clear_screen),
{
    if clear_screen {
        "\x1b[?25h\x1b[0m\x1b[H\x1b[2J".as_bytes()
    } else {
        "\x1b[0m\n".as_bytes()
    }
}

/// `count` line ends of the session kind.
pub open spec fn newlines(telnet: bool, count: nat) -> Seq<u8> {
    repeat_bytes(newline_bytes(telnet), count)
}

/// One screen of the telnet intro, counting down `seconds_left`.
pub open spec fn intro_bytes(telnet: bool, seconds_left: u64) -> Seq<u8> {
    newlines(telnet, 3) + text("                             \x1b[1mNyancat Telnet Server\x1b[0m")
        + newlines(telnet, 2) + text("                   written and run by \x1b[1;32mK. Lange\x1b[1;34m @_klange\x1b[0m")
        + newlines(telnet, 2) + text("        If things don't look right, try:")
        + newlines(telnet, 1) + text("                TERM=fallback telnet ...")
        + newlines(telnet, 2) + text("        Or on Windows:")
        + newlines(telnet, 1) + text("                telnet -t vtnt ...")
        + newlines(telnet, 2) + text("        Problems? Check the website:")
        + newlines(telnet, 1) + text("                \x1b[1;34mhttp://nyancat.dakko.us\x1b[0m")
        + newlines(telnet, 2) + text("        This is a telnet server, remember your escape keys!")
        + newlines(telnet, 1) + text("                \x1b[1;31m^]quit\x1b[0m to exit")
        + newlines(telnet, 2) + text("        Starting in ") + decimal_bytes(seconds_left as nat)
        + text("...                ") + seq![0x0au8]
}

/// Appends one intro screen counting down `seconds_left`.
pub fn push_intro_screen(out: &mut FrameBuffer, telnet: bool, seconds_left: u64)
    ensures
        final(out)@ == old(out)@ + intro_bytes(telnet, seconds_left),
{
    let ghost start = old(out)@;
    let mut screen = FrameBuffer::with_capacity(1024);
    let ghost mut acc = Seq::<u8>::empty();
    screen.push_newlines(telnet, 3);
    proof { acc = acc + newlines(telnet, 3); }
    screen.push_bytes("                             \x1b[1mNyancat Telnet Server\x1b[0m".as_bytes());
    proof { acc = acc + text("                             \x1b[1mNyancat Telnet Server\x1b[0m"); }
    screen.push_newlines(telnet, 2);
    proof { acc = acc + newlines(telnet, 2); }
    screen.push_bytes("                   written and run by \x1b[1;32mK. Lange\x1b[1;34m @_klange\x1b[0m".as_bytes());
    proof { acc = acc + text("                   written and run by \x1b[1;32mK. Lange\x1b[1;34m @_klange\x1b[0m"); }
    screen.push_newlines(telnet, 2);
    proof { acc = acc + newlines(telnet, 2); }
    screen.push_bytes("        If things don't look right, try:".as_bytes());
    proof { acc = acc + text("        If things don't look right, try:"); }
    screen.push_newlines(telnet, 1);
    proof { acc = acc + newlines(telnet, 1); }
    screen.push_bytes("                TERM=fallback telnet ...".as_bytes());
    proof { acc = acc + text("                TERM=fallback telnet ..."); }
    screen.push_newlines(telnet, 2);
    proof { acc = acc + newlines(telnet, 2); }
    screen.push_bytes("        Or on Windows:".as_bytes());
    proof { acc = acc + text("        Or on Windows:"); }
    screen.push_newlines(telnet, 1);
    proof { acc = acc + newlines(telnet, 1); }
    screen.push_bytes("                telnet -t vtnt ...".as_bytes());
    proof { acc = acc + text("                telnet -t vtnt ..."); }
    screen.push_newlines(telnet, 2);
    proof { acc = acc + newlines(telnet, 2); }
    screen.push_bytes("        Problems? Check the website:".as_bytes());
    proof { acc = acc + text("        Problems? Check the website:"); }
    screen.push_newlines(telnet, 1);
    proof { acc = acc + newlines(telnet, 1); }
    screen.push_bytes("                \x1b[1;34mhttp://nyancat.dakko.us\x1b[0m".as_bytes());
    proof { acc = acc + text("                \x1b[1;34mhttp://nyancat.dakko.us\x1b[0m"); }
    screen.push_newlines(telnet, 2);
    proof { acc = acc + newlines(telnet, 2); }
    screen.push_bytes("        This is a telnet server, remember your escape keys!".as_bytes());
    proof { acc = acc + text("        This is a telnet server, remember your escape keys!"); }
    screen.push_newlines(telnet, 1);
    proof { acc = acc + newlines(telnet, 1); }
    screen.push_bytes("                \x1b[1;31m^]quit\x1b[0m to exit".as_bytes());
    proof { acc = acc + text("                \x1b[1;31m^]quit\x1b[0m to exit"); }
    screen.push_newlines(telnet, 2);
    proof { acc = acc + newlines(telnet, 2); }
    screen.push_bytes("        Starting in ".as_bytes());
    proof { acc = acc + text("        Starting in "); }
    push_decimal(&mut screen, seconds_left);
    proof { acc = acc + decimal_bytes(seconds_left as nat); }
    screen.push_bytes("...                ".as_bytes());
    proof { acc = acc + text("...                "); }
    screen.push_byte(0x0a);
    proof { acc = acc + seq![0x0au8]; }
    assert(screen@ == acc);
    assert(Seq::<u8>::empty() + newlines(telnet, 3) =~= newlines(telnet, 3));
    assert(acc == intro_bytes(telnet, seconds_left));
    out.push_bytes(screen.as_bytes());
}

/// Seconds of intro countdown, one screen each.
pub const INTRO_SECONDS: u64 = 5;

/// What ends the intro: a cleared screen, or nothing when the screen is
/// kept.
pub open spec fn intro_end_bytes(clear_screen: bool) -> Seq<u8> {
    if clear_screen {
        clear_screen_bytes()
    } else {
        Seq::empty()
    }
}

/// The bytes sent after the intro.
pub fn intro_end(clear_screen: bool) -> (r: &'static [u8])
    ensures
        r@ == intro_end_bytes(clear_screen),
{
    if clear_screen {
        "\x1b[H\x1b[2J\x1b[?25l".as_bytes()
    } else {
        &[]
    }
}

} // verus!
