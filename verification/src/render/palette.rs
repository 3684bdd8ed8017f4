use vstd::prelude::*;
use crate::animation::FrameSymbol;
use crate::render::frame_buffer::text;
use crate::terminal::TerminalType;

verus! {

/// The fourteen frame symbols, in the order every palette table lists them:
/// background, star, black outline, body edge, body, body mark, the six
/// rainbow colours (red, orange, yellow, green, blue, indigo), face, blush.
pub open spec fn palette_symbols() -> Seq<u8> {
    seq![0x2cu8, 0x2eu8, 0x27u8, 0x40u8, 0x24u8, 0x2du8, 0x3eu8, 0x26u8, 0x2bu8, 0x23u8, 0x3du8, 0x3bu8, 0x2au8, 0x25u8]
}

/// The values of the 256-colour xterm palette, in symbol order.
pub open spec fn xterm_256_palette_values() -> Seq<Seq<u8>> {
    seq![
        text("\x1b[48;5;17m"),
        text("\x1b[48;5;231m"),
        text("\x1b[48;5;16m"),
        text("\x1b[48;5;230m"),
        text("\x1b[48;5;175m"),
        text("\x1b[48;5;162m"),
        text("\x1b[48;5;196m"),
        text("\x1b[48;5;214m"),
        text("\x1b[48;5;226m"),
        text("\x1b[48;5;118m"),
        text("\x1b[48;5;33m"),
        text("\x1b[48;5;19m"),
        text("\x1b[48;5;240m"),
        text("\x1b[48;5;175m"),
    ]
}

/// The values of the 16-colour ANSI palette, in symbol order.
pub open spec fn ansi_16_palette_values() -> Seq<Seq<u8>> {
    seq![
        text("\x1b[104m"),
        text("\x1b[107m"),
        text("\x1b[40m"),
        text("\x1b[47m"),
        text("\x1b[105m"),
        text("\x1b[101m"),
        text("\x1b[101m"),
        text("\x1b[43m"),
        text("\x1b[103m"),
        text("\x1b[102m"),
        text("\x1b[104m"),
        text("\x1b[44m"),
        text("\x1b[100m"),
        text("\x1b[105m"),
    ]
}

/// The values of the Linux console palette (blink bit for bright backgrounds), in symbol order.
pub open spec fn linux_palette_values() -> Seq<Seq<u8>> {
    seq![
        text("\x1b[25;44m"),
        text("\x1b[5;47m"),
        text("\x1b[25;40m"),
        text("\x1b[5;47m"),
        text("\x1b[5;45m"),
        text("\x1b[5;41m"),
        text("\x1b[5;41m"),
        text("\x1b[25;43m"),
        text("\x1b[5;43m"),
        text("\x1b[5;42m"),
        text("\x1b[25;44m"),
        text("\x1b[5;44m"),
        text("\x1b[5;40m"),
        text("\x1b[5;45m"),
    ]
}

/// The values of the bold 8-colour palette of the fallback and Windows console modes, in symbol order.
pub open spec fn fallback_palette_values() -> Seq<Seq<u8>> {
    seq![
        text("\x1b[0;34;44m"),
        text("\x1b[1;37;47m"),
        text("\x1b[0;30;40m"),
        text("\x1b[1;37;47m"),
        text("\x1b[1;35;45m"),
        text("\x1b[1;31;41m"),
        text("\x1b[1;31;41m"),
        text("\x1b[0;33;43m"),
        text("\x1b[1;33;43m"),
        text("\x1b[1;32;42m"),
        text("\x1b[1;34;44m"),
        text("\x1b[0;34;44m"),
        text("\x1b[1;30;40m"),
        text("\x1b[1;35;45m"),
    ]
}

/// The values of the two-character ASCII art of the VT220 mode, in symbol order.
pub open spec fn vt220_palette_values() -> Seq<Seq<u8>> {
    seq![
        text("::"),
        text("@@"),
        text("  "),
        text("##"),
        text("??"),
        text("<>"),
        text("##"),
        text("=="),
        text("--"),
        text("++"),
        text("~~"),
        text("$$"),
        text(";;"),
        text("()"),
    ]
}

/// The values of the one-character ASCII art of the 40-column VT100 mode, in symbol order.
pub open spec fn vt100_ascii_palette_values() -> Seq<Seq<u8>> {
    seq![
        text("."),
        text("@"),
        text(" "),
        text("#"),
        text("?"),
        text("O"),
        text("#"),
        text("="),
        text("-"),
        text("+"),
        text("~"),
        text("$"),
        text(";"),
        text("o"),
    ]
}

/// The values of the 24-bit colour palette, in symbol order.
pub open spec fn true_color_palette_values() -> Seq<Seq<u8>> {
    seq![
        text("\x1b[48;2;0;49;105m"),
        text("\x1b[48;2;255;255;255m"),
        text("\x1b[48;2;0;0;0m"),
        text("\x1b[48;2;255;205;152m"),
        text("\x1b[48;2;255;169;255m"),
        text("\x1b[48;2;255;76;152m"),
        text("\x1b[48;2;255;25;0m"),
        text("\x1b[48;2;255;154;0m"),
        text("\x1b[48;2;255;240;0m"),
        text("\x1b[48;2;40;220;0m"),
        text("\x1b[48;2;0;144;255m"),
        text("\x1b[48;2;104;68;255m"),
        text("\x1b[48;2;153;153;153m"),
        text("\x1b[48;2;255;163;152m"),
    ]
}

/// The table a terminal type is drawn with; the Windows console shares the
/// fallback colours and differs only in its cell glyph.
pub open spec fn palette_values(terminal_type: TerminalType) -> Seq<Seq<u8>> {
    match terminal_type {
        TerminalType::Xterm256 => xterm_256_palette_values(),
        TerminalType::Ansi16 => ansi_16_palette_values(),
        TerminalType::Linux => linux_palette_values(),
        TerminalType::Fallback => fallback_palette_values(),
        TerminalType::Vtnt => fallback_palette_values(),
        TerminalType::Vt220 => vt220_palette_values(),
        TerminalType::Vt100Ascii => vt100_ascii_palette_values(),
        TerminalType::TrueColor => true_color_palette_values(),
    }
}

/// Symbol-value pairs in table order.
pub open spec fn table_entries(values: Seq<Seq<u8>>) -> Seq<(u8, Seq<u8>)> {
    Seq::new(14, |i: int| (palette_symbols()[i], values[i]))
}

/// Two spaces: a cell drawn by its background colour alone.
pub open spec fn text_blocks() -> Seq<u8> {
    text("  ")
}

/// Two full blocks in code page 437.
pub open spec fn cp437_blocks() -> Seq<u8> {
    seq![0xdbu8, 0xdbu8]
}

/// Two full blocks (U+2588) in UTF-8.
pub open spec fn utf8_blocks() -> Seq<u8> {
    text("\u{2588}\u{2588}")
}

/// The glyph every cell is drawn with after its colour escape; none for the
/// ASCII art modes, whose table values are the cells themselves.
pub open spec fn palette_output(terminal_type: TerminalType) -> Option<Seq<u8>> {
    match terminal_type {
        TerminalType::Xterm256 => Some(text_blocks()),
        TerminalType::Ansi16 => Some(text_blocks()),
        TerminalType::Linux => Some(text_blocks()),
        TerminalType::Fallback => Some(utf8_blocks()),
        TerminalType::Vtnt => Some(cp437_blocks()),
        TerminalType::Vt220 => None,
        TerminalType::Vt100Ascii => None,
        TerminalType::TrueColor => Some(text_blocks()),
    }
}

/// The value of the last entry for `symbol`; empty when no entry names it.
pub open spec fn entry_lookup(entries: Seq<(u8, Seq<u8>)>, symbol: u8) -> Seq<u8>
    decreases entries.len(),
{
    if entries.len() == 0 {
        Seq::empty()
    } else if entries.last().0 == symbol {
        entries.last().1
    } else {
        entry_lookup(entries.drop_last(), symbol)
    }
}

/// What a symbol is drawn as on a terminal type: its colour escape, or its
/// ASCII art in the modes without colour; empty for a symbol of no table.
pub open spec fn palette_color(terminal_type: TerminalType, symbol: u8) -> Seq<u8> {
    entry_lookup(table_entries(palette_values(terminal_type)), symbol)
}

/// One table row: a frame symbol and what it is drawn as.
#[derive(Clone, Copy, Debug)]
pub struct PaletteEntry {
    pub symbol: FrameSymbol,
    pub value: &'static [u8],
}

impl PaletteEntry {
    pub fn new(symbol: FrameSymbol, value: &'static [u8]) -> (r: Self)
        ensures
            r.symbol == symbol,
            r.value == value,
    {
        PaletteEntry { symbol, value }
    }

    pub open spec fn pair(self) -> (u8, Seq<u8>) {
        (self.symbol@, self.value@)
    }
}

pub open spec fn entry_pairs(entries: Seq<PaletteEntry>) -> Seq<(u8, Seq<u8>)> {
    entries.map_values(|e: PaletteEntry| e.pair())
}

fn table_from_values(values: &Vec<&'static [u8]>) -> (r: Vec<PaletteEntry>)
    requires
        values@.len() == 14,
    ensures
        entry_pairs(r@) =~= table_entries(values@.map_values(|v: &'static [u8]| v@)),
{
    let symbols: [u8; 14] = [0x2c, 0x2e, 0x27, 0x40, 0x24, 0x2d, 0x3e, 0x26, 0x2b, 0x23, 0x3d, 0x3b, 0x2a, 0x25];
    assert(symbols@ =~= palette_symbols());
    let mut r: Vec<PaletteEntry> = Vec::new();
    let mut i: usize = 0;
    while i < 14
        invariant
            i <= 14,
            values@.len() == 14,
            symbols@ == palette_symbols(),
            r@.len() == i,
            forall|k: int| 0 <= k < i ==> #[trigger] r@[k].pair() == (palette_symbols()[k], values@[k]@),
        decreases 14 - i,
    {
        r.push(PaletteEntry::new(FrameSymbol::new(symbols[i]), values[i]));
        i = i + 1;
    }
    r
}

/// The entries of the 256-colour xterm palette.
pub fn xterm_256_palette() -> (r: Vec<PaletteEntry>)
    ensures
        entry_pairs(r@) == table_entries(xterm_256_palette_values()),
{
    let mut values: Vec<&'static [u8]> = Vec::new();
    values.push("\x1b[48;5;17m".as_bytes());
    values.push("\x1b[48;5;231m".as_bytes());
    values.push("\x1b[48;5;16m".as_bytes());
    values.push("\x1b[48;5;230m".as_bytes());
    values.push("\x1b[48;5;175m".as_bytes());
    values.push("\x1b[48;5;162m".as_bytes());
    values.push("\x1b[48;5;196m".as_bytes());
    values.push("\x1b[48;5;214m".as_bytes());
    values.push("\x1b[48;5;226m".as_bytes());
    values.push("\x1b[48;5;118m".as_bytes());
    values.push("\x1b[48;5;33m".as_bytes());
    values.push("\x1b[48;5;19m".as_bytes());
    values.push("\x1b[48;5;240m".as_bytes());
    values.push("\x1b[48;5;175m".as_bytes());
    assert(values@.map_values(|v: &'static [u8]| v@) =~= xterm_256_palette_values());
    table_from_values(&values)
}

/// The entries of the 16-colour ANSI palette.
pub fn ansi_16_palette() -> (r: Vec<PaletteEntry>)
    ensures
        entry_pairs(r@) == table_entries(ansi_16_palette_values()),
{
    let mut values: Vec<&'static [u8]> = Vec::new();
    values.push("\x1b[104m".as_bytes());
    values.push("\x1b[107m".as_bytes());
    values.push("\x1b[40m".as_bytes());
    values.push("\x1b[47m".as_bytes());
    values.push("\x1b[105m".as_bytes());
    values.push("\x1b[101m".as_bytes());
    values.push("\x1b[101m".as_bytes());
    values.push("\x1b[43m".as_bytes());
    values.push("\x1b[103m".as_bytes());
    values.push("\x1b[102m".as_bytes());
    values.push("\x1b[104m".as_bytes());
    values.push("\x1b[44m".as_bytes());
    values.push("\x1b[100m".as_bytes());
    values.push("\x1b[105m".as_bytes());
    assert(values@.map_values(|v: &'static [u8]| v@) =~= ansi_16_palette_values());
    table_from_values(&values)
}

/// The entries of the Linux console palette (blink bit for bright backgrounds).
pub fn linux_palette() -> (r: Vec<PaletteEntry>)
    ensures
        entry_pairs(r@) == table_entries(linux_palette_values()),
{
    let mut values: Vec<&'static [u8]> = Vec::new();
    values.push("\x1b[25;44m".as_bytes());
    values.push("\x1b[5;47m".as_bytes());
    values.push("\x1b[25;40m".as_bytes());
    values.push("\x1b[5;47m".as_bytes());
    values.push("\x1b[5;45m".as_bytes());
    values.push("\x1b[5;41m".as_bytes());
    values.push("\x1b[5;41m".as_bytes());
    values.push("\x1b[25;43m".as_bytes());
    values.push("\x1b[5;43m".as_bytes());
    values.push("\x1b[5;42m".as_bytes());
    values.push("\x1b[25;44m".as_bytes());
    values.push("\x1b[5;44m".as_bytes());
    values.push("\x1b[5;40m".as_bytes());
    values.push("\x1b[5;45m".as_bytes());
    assert(values@.map_values(|v: &'static [u8]| v@) =~= linux_palette_values());
    table_from_values(&values)
}

/// The entries of the bold 8-colour palette of the fallback and Windows console modes.
pub fn fallback_palette() -> (r: Vec<PaletteEntry>)
    ensures
        entry_pairs(r@) == table_entries(fallback_palette_values()),
{
    let mut values: Vec<&'static [u8]> = Vec::new();
    values.push("\x1b[0;34;44m".as_bytes());
    values.push("\x1b[1;37;47m".as_bytes());
    values.push("\x1b[0;30;40m".as_bytes());
    values.push("\x1b[1;37;47m".as_bytes());
    values.push("\x1b[1;35;45m".as_bytes());
    values.push("\x1b[1;31;41m".as_bytes());
    values.push("\x1b[1;31;41m".as_bytes());
    values.push("\x1b[0;33;43m".as_bytes());
    values.push("\x1b[1;33;43m".as_bytes());
    values.push("\x1b[1;32;42m".as_bytes());
    values.push("\x1b[1;34;44m".as_bytes());
    values.push("\x1b[0;34;44m".as_bytes());
    values.push("\x1b[1;30;40m".as_bytes());
    values.push("\x1b[1;35;45m".as_bytes());
    assert(values@.map_values(|v: &'static [u8]| v@) =~= fallback_palette_values());
    table_from_values(&values)
}

/// The entries of the two-character ASCII art of the VT220 mode.
pub fn vt220_palette() -> (r: Vec<PaletteEntry>)
    ensures
        entry_pairs(r@) == table_entries(vt220_palette_values()),
{
    let mut values: Vec<&'static [u8]> = Vec::new();
    values.push("::".as_bytes());
    values.push("@@".as_bytes());
    values.push("  ".as_bytes());
    values.push("##".as_bytes());
    values.push("??".as_bytes());
    values.push("<>".as_bytes());
    values.push("##".as_bytes());
    values.push("==".as_bytes());
    values.push("--".as_bytes());
    values.push("++".as_bytes());
    values.push("~~".as_bytes());
    values.push("$$".as_bytes());
    values.push(";;".as_bytes());
    values.push("()".as_bytes());
    assert(values@.map_values(|v: &'static [u8]| v@) =~= vt220_palette_values());
    table_from_values(&values)
}

/// The entries of the one-character ASCII art of the 40-column VT100 mode.
pub fn vt100_ascii_palette() -> (r: Vec<PaletteEntry>)
    ensures
        entry_pairs(r@) == table_entries(vt100_ascii_palette_values()),
{
    let mut values: Vec<&'static [u8]> = Vec::new();
    values.push(".".as_bytes());
    values.push("@".as_bytes());
    values.push(" ".as_bytes());
    values.push("#".as_bytes());
    values.push("?".as_bytes());
    values.push("O".as_bytes());
    values.push("#".as_bytes());
    values.push("=".as_bytes());
    values.push("-".as_bytes());
    values.push("+".as_bytes());
    values.push("~".as_bytes());
    values.push("$".as_bytes());
    values.push(";".as_bytes());
    values.push("o".as_bytes());
    assert(values@.map_values(|v: &'static [u8]| v@) =~= vt100_ascii_palette_values());
    table_from_values(&values)
}

/// The entries of the 24-bit colour palette.
pub fn true_color_palette() -> (r: Vec<PaletteEntry>)
    ensures
        entry_pairs(r@) == table_entries(true_color_palette_values()),
{
    let mut values: Vec<&'static [u8]> = Vec::new();
    values.push("\x1b[48;2;0;49;105m".as_bytes());
    values.push("\x1b[48;2;255;255;255m".as_bytes());
    values.push("\x1b[48;2;0;0;0m".as_bytes());
    values.push("\x1b[48;2;255;205;152m".as_bytes());
    values.push("\x1b[48;2;255;169;255m".as_bytes());
    values.push("\x1b[48;2;255;76;152m".as_bytes());
    values.push("\x1b[48;2;255;25;0m".as_bytes());
    values.push("\x1b[48;2;255;154;0m".as_bytes());
    values.push("\x1b[48;2;255;240;0m".as_bytes());
    values.push("\x1b[48;2;40;220;0m".as_bytes());
    values.push("\x1b[48;2;0;144;255m".as_bytes());
    values.push("\x1b[48;2;104;68;255m".as_bytes());
    values.push("\x1b[48;2;153;153;153m".as_bytes());
    values.push("\x1b[48;2;255;163;152m".as_bytes());
    assert(values@.map_values(|v: &'static [u8]| v@) =~= true_color_palette_values());
    table_from_values(&values)
}
/// A lookup table from frame symbol to what the symbol is drawn as, with
/// the glyph drawn after each colour escape.
pub struct Palette {
    colors: Vec<&'static [u8]>,
    output: Option<&'static [u8]>,
}

pub open spec fn option_bytes(o: Option<&'static [u8]>) -> Option<Seq<u8>> {
    match o {
        Some(b) => Some(b@),
        None => None,
    }
}

impl Palette {
    /// Every byte value has a slot.
    pub closed spec fn wf(self) -> bool {
        self.colors@.len() == 256
    }

    /// What `symbol` is drawn as.
    pub closed spec fn color_of(self, symbol: u8) -> Seq<u8> {
        self.colors@[symbol as int]@
    }

    /// The glyph drawn after a colour escape; none in the ASCII art modes.
    pub closed spec fn output_of(self) -> Option<Seq<u8>> {
        option_bytes(self.output)
    }

    /// The palette of a terminal type.
    pub fn new(terminal_type: TerminalType) -> (r: Self)
        ensures
            r.wf(),
            forall|s: u8| #[trigger] r.color_of(s) == palette_color(terminal_type, s),
            r.output_of() == palette_output(terminal_type),
    {
        let text_blocks: &'static [u8] = "  ".as_bytes();
        let cp437_blocks: &'static [u8] = &[0xdb, 0xdb];
        let utf8_blocks: &'static [u8] = "\u{2588}\u{2588}".as_bytes();
        let (entries, output) = match terminal_type {
            TerminalType::Xterm256 => (xterm_256_palette(), Some(text_blocks)),
            TerminalType::Ansi16 => (ansi_16_palette(), Some(text_blocks)),
            TerminalType::Linux => (linux_palette(), Some(text_blocks)),
            TerminalType::Fallback => (fallback_palette(), Some(utf8_blocks)),
            TerminalType::Vtnt => (fallback_palette(), Some(cp437_blocks)),
            TerminalType::Vt220 => (vt220_palette(), None),
            TerminalType::Vt100Ascii => (vt100_ascii_palette(), None),
            TerminalType::TrueColor => (true_color_palette(), Some(text_blocks)),
        };
        Self::from_entries(entries.as_slice(), output)
    }

    /// A palette holding `entries` (a later entry for the same symbol wins)
    /// and drawing cells with `output`.
    pub fn from_entries(entries: &[PaletteEntry], output: Option<&'static [u8]>) -> (r: Self)
        ensures
            r.wf(),
            forall|s: u8| #[trigger] r.color_of(s) == entry_lookup(entry_pairs(entries@), s),
            r.output_of() == option_bytes(output),
    {
        let empty: &'static [u8] = &[];
        let mut colors: Vec<&'static [u8]> = Vec::new();
        let mut k: usize = 0;
        while k < 256
            invariant
                k <= 256,
                colors@.len() == k,
                empty@.len() == 0,
                forall|j: int| 0 <= j < k ==> (#[trigger] colors@[j])@ == Seq::<u8>::empty(),
            decreases 256 - k,
        {
            colors.push(empty);
            k = k + 1;
        }
        let mut palette = Palette { colors, output };
        let n = entries.len();
        let mut i: usize = 0;
        assert(entry_pairs(entries@).take(0) =~= Seq::<(u8, Seq<u8>)>::empty());
        while i < n
            invariant
                n == entries@.len(),
                i <= n,
                palette.wf(),
                palette.output_of() == option_bytes(output),
                forall|s: u8| #[trigger] palette.color_of(s) == entry_lookup(entry_pairs(entries@).take(i as int), s),
            decreases n - i,
        {
            palette.set(entries[i]);
            proof {
                let pairs = entry_pairs(entries@);
                assert(pairs.take(i + 1).drop_last() =~= pairs.take(i as int));
                assert(pairs.take(i + 1).last() == entries@[i as int].pair());
            }
            i = i + 1;
        }
        assert(entry_pairs(entries@).take(n as int) =~= entry_pairs(entries@));
        palette
    }

    /// Draws `entry.symbol` as `entry.value` from now on.
    pub fn set(&mut self, entry: PaletteEntry)
        requires
            old(self).wf(),
        ensures
            final(self).wf(),
            final(self).output_of() == old(self).output_of(),
            forall|s: u8| #[trigger] final(self).color_of(s) == if s == entry.symbol@ {
                entry.value@
            } else {
                old(self).color_of(s)
            },
    {
        let index = entry.symbol.as_byte() as usize;
        self.colors.set(index, entry.value);
    }

    /// What `symbol` is drawn as; empty for a symbol of no table.
    pub fn color(&self, symbol: FrameSymbol) -> (r: &'static [u8])
        requires
            self.wf(),
        ensures
            r@ == self.color_of(symbol@),
    {
        self.colors[symbol.as_byte() as usize]
    }

    /// The glyph drawn after each colour escape; none in the ASCII art modes.
    pub fn output(&self) -> (r: Option<&'static [u8]>)
        ensures
            option_bytes(r) == self.output_of(),
    {
        self.output
    }
}

proof fn lemma_lookup_absent(entries: Seq<(u8, Seq<u8>)>, symbol: u8)
    requires
        forall|i: int| 0 <= i < entries.len() ==> (#[trigger] entries[i]).0 != symbol,
    ensures
        entry_lookup(entries, symbol) == Seq::<u8>::empty(),
    decreases entries.len(),
{
    if entries.len() > 0 {
        assert(entries.last() == entries[entries.len() - 1]);
        assert forall|i: int| 0 <= i < entries.drop_last().len() implies (#[trigger] entries.drop_last()[i]).0 != symbol by {
            assert(entries.drop_last()[i] == entries[i]);
        }
        lemma_lookup_absent(entries.drop_last(), symbol);
    }
}

/// A byte that is none of the fourteen frame symbols is drawn as nothing,
/// on every terminal type.
pub proof fn lemma_unknown_symbols_are_empty(terminal_type: TerminalType, symbol: u8)
    requires
        !palette_symbols().contains(symbol),
    ensures
        palette_color(terminal_type, symbol) == Seq::<u8>::empty(),
{
    let entries = table_entries(palette_values(terminal_type));
    assert forall|i: int| 0 <= i < entries.len() implies (#[trigger] entries[i]).0 != symbol by {
        assert(entries[i].0 == palette_symbols()[i]);
    }
    lemma_lookup_absent(entries, symbol);
}

/// The two block palettes (UTF-8 fallback and the Windows console) give
/// every symbol the same colour and differ only in the glyph they draw.
pub proof fn lemma_block_palettes_share_colors(symbol: u8)
    ensures
        palette_color(TerminalType::Fallback, symbol) == palette_color(TerminalType::Vtnt, symbol),
        palette_output(TerminalType::Fallback) != palette_output(TerminalType::Vtnt),
{
    reveal_strlit("\u{2588}\u{2588}");
    assert(utf8_blocks().len() != cp437_blocks().len());
}

proof fn lemma_ascii_text(s: &str)
    requires
        vstd::string::is_ascii(s),
    ensures
        text(s).len() == s@.len(),
        forall|i: int| 0 <= i < s@.len() ==> #[trigger] text(s)[i] == s@[i] as u8,
{
    vstd::string::is_ascii_spec_bytes(s);
}

/// Every palette draws something in each cell. A palette whose table holds
/// colour escapes (its values start with ESC) follows each escape with a
/// non-empty glyph, two spaces in the 24-bit colour mode among them; a
/// palette with no glyph (the ASCII art modes) holds art, not escapes.
pub proof fn lemma_escape_palettes_draw_a_glyph(terminal_type: TerminalType)
    ensures
        palette_values(terminal_type)[0].len() > 0,
        (palette_values(terminal_type)[0][0] == 0x1bu8) <==> (palette_output(terminal_type) matches Some(g) && g.len() > 0),
        palette_output(TerminalType::TrueColor) == Some(seq![0x20u8, 0x20u8]),
{
    reveal_strlit("\x1b[48;5;17m");
    reveal_strlit("\x1b[104m");
    reveal_strlit("\x1b[25;44m");
    reveal_strlit("\x1b[0;34;44m");
    reveal_strlit("::");
    reveal_strlit(".");
    reveal_strlit("\x1b[48;2;0;49;105m");
    reveal_strlit("  ");
    reveal_strlit("\u{2588}\u{2588}");
    lemma_ascii_text("\x1b[48;5;17m");
    lemma_ascii_text("\x1b[104m");
    lemma_ascii_text("\x1b[25;44m");
    lemma_ascii_text("\x1b[0;34;44m");
    lemma_ascii_text("::");
    lemma_ascii_text(".");
    lemma_ascii_text("\x1b[48;2;0;49;105m");
    lemma_ascii_text("  ");
    assert(text_blocks() =~= seq![0x20u8, 0x20u8]);
    assert(utf8_blocks().len() > 0);
}

} // verus!
