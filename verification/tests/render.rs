use nyancat::animation::{Animation, FrameSymbol, FRAME_HEIGHT, FRAME_WIDTH};
use nyancat::cli::Config;
use nyancat::render::frame_buffer::FrameBuffer;
use nyancat::render::palette::Palette;
use nyancat::render::{render_frame, RenderState};
use nyancat::terminal::{TerminalSize, TerminalType};

const EMPTY: &[u8] = b"";
const CP437_BLOCKS: &[u8] = &[0xdb, 0xdb];
const UTF8_BLOCKS: &[u8] = &[0xe2, 0x96, 0x88, 0xe2, 0x96, 0x88];

/// A stand-in animation: a background field with a star in each frame.
fn test_animation() -> Animation {
    let frames = (0..12)
        .map(|index| {
            let mut frame = vec![b','; FRAME_WIDTH * FRAME_HEIGHT];
            frame[index * FRAME_WIDTH + index] = b'.';
            frame[30 * FRAME_WIDTH + 30] = b'@';
            frame
        })
        .collect();
    Animation::from_frames(frames).unwrap()
}

fn render_test_frame(config: &Config, elapsed_seconds: u64) -> Vec<u8> {
    let mut state = RenderState::new(config, TerminalSize::new(80, 24));
    state.finalize_auto_crop();
    let palette = Palette::new(TerminalType::Vt100Ascii);
    let animation = test_animation();
    let mut out = FrameBuffer::with_capacity(32 * 1024);

    render_frame(&mut out, config, &state, &palette, &animation, 0, elapsed_seconds);

    out.into_bytes()
}

#[test]
fn render_frame_buffer_uses_terminal_newlines() {
    let mut buffer = FrameBuffer::with_capacity(16);

    buffer.push_newlines(false, 2);

    assert_eq!(buffer.as_bytes(), b"\n\n");
}

#[test]
fn render_frame_buffer_uses_telnet_newlines() {
    let mut buffer = FrameBuffer::with_capacity(16);

    buffer.push_newlines(true, 2);

    assert_eq!(buffer.as_bytes(), b"\r\0\n\r\0\n");
}

#[test]
fn render_frame_buffer_prefix_tracks_clear_screen_mode() {
    let mut buffer = FrameBuffer::with_capacity(8);

    buffer.push_frame_prefix(true);
    assert_eq!(buffer.as_bytes(), b"\x1b[H");

    buffer.clear();
    buffer.push_frame_prefix(false);
    assert_eq!(buffer.as_bytes(), b"\x1b[u");
}

#[test]
fn render_palette_uses_terminal_specific_entries() {
    let palette = Palette::new(TerminalType::Vt100Ascii);

    assert_eq!(palette.color(FrameSymbol::new(b',')), b".");
    assert_eq!(palette.color(FrameSymbol::new(b'@')), b"#");
    assert_eq!(palette.output(), None);
}

#[test]
fn render_block_palettes_share_colors_with_different_outputs() {
    let fallback = Palette::new(TerminalType::Fallback);
    let vtnt = Palette::new(TerminalType::Vtnt);

    assert_eq!(
        fallback.color(FrameSymbol::new(b',')),
        vtnt.color(FrameSymbol::new(b','))
    );
    assert_eq!(fallback.output(), Some(UTF8_BLOCKS));
    assert_eq!(vtnt.output(), Some(CP437_BLOCKS));
}

#[test]
fn render_unknown_palette_symbols_are_empty() {
    let palette = Palette::new(TerminalType::TrueColor);

    assert_eq!(palette.color(FrameSymbol::new(b'?')), EMPTY);
}

#[test]
fn counter_uses_supplied_elapsed_seconds() {
    let config = Config::default();
    let out = render_test_frame(&config, 42);

    assert!(
        out.windows(b"You have nyaned for 42 seconds!".len())
            .any(|window| window == b"You have nyaned for 42 seconds!")
    );
}

#[test]
fn counter_can_be_disabled() {
    let config = Config {
        show_counter: false,
        ..Config::default()
    };
    let out = render_test_frame(&config, 42);

    assert!(
        !out.windows(b"You have nyaned for".len())
            .any(|window| window == b"You have nyaned for")
    );
}

#[test]
fn telnet_mode_uses_telnet_newlines() {
    let config = Config {
        telnet: true,
        show_counter: false,
        ..Config::default()
    };
    let out = render_test_frame(&config, 0);

    assert!(
        out.windows(b"\r\0\n".len())
            .any(|window| window == b"\r\0\n")
    );
    assert!(!out.windows(b"\n\n".len()).any(|window| window == b"\n\n"));
}
