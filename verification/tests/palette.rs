use nyancat::animation::FrameSymbol;
use nyancat::render::palette::Palette;
use nyancat::terminal::TerminalType;

const EMPTY: &[u8] = b"";
const CP437_BLOCKS: &[u8] = &[0xdb, 0xdb];
const UTF8_BLOCKS: &[u8] = &[0xe2, 0x96, 0x88, 0xe2, 0x96, 0x88];

#[test]
fn palette_palette_uses_terminal_specific_entries() {
    let palette = Palette::new(TerminalType::Vt100Ascii);

    assert_eq!(palette.color(FrameSymbol::new(b',')), b".");
    assert_eq!(palette.color(FrameSymbol::new(b'@')), b"#");
    assert_eq!(palette.output(), None);
}

#[test]
fn palette_block_palettes_share_colors_with_different_outputs() {
    let fallback = Palette::new(TerminalType::Fallback);
    let vtnt = Palette::new(TerminalType::Vtnt);

    assert_eq!(
        fallback.color(FrameSymbol::new(b',')),
        vtnt.color(FrameSymbol::new(b','))
    );
    assert_eq!(fallback.output(), Some(UTF8_BLOCKS));
    assert_eq!(vtnt.output(), Some(CP437_BLOCKS));
}

#[test]
fn palette_unknown_palette_symbols_are_empty() {
    let palette = Palette::new(TerminalType::TrueColor);

    assert_eq!(palette.color(FrameSymbol::new(b'?')), EMPTY);
}
