use nyancat::animation::{
    all_frame_symbols_in, is_frame_symbol_byte, text_lines_of, Animation, FrameSymbol, FRAME_HEIGHT, FRAME_WIDTH,
};
use nyancat::classic::options::{parse_args as classic_parse_args, Config as ClassicConfig};
use nyancat::cli::{parse_args, parse_i32, AxisCrop, CliAction, CliError, Config, CropBounds};
use nyancat::render::benchmark::BenchmarkTracker;
use nyancat::render::frame_buffer::FrameBuffer;
use nyancat::render::palette::Palette;
use nyancat::render::render_loop::RenderLoop;
use nyancat::render::{
    decimal_len, exit_sequence, intro_end, push_decimal, push_intro_screen, push_startup, render_frame,
    render_next_frame, RenderState,
};
use nyancat::telnet::{parse_subnegotiation, Subnegotiation, TelnetCommand, TelnetEvent, TelnetParser, TimeoutReader, IAC, TTYPE};
use nyancat::terminal::{session_terminal, terminal_size, TerminalSize, TerminalType};

fn args(list: &[&str]) -> Vec<String> {
    list.iter().map(|a| a.to_string()).collect()
}

fn one_frame_animation() -> Animation {
    let mut frame = vec![b','; FRAME_WIDTH * FRAME_HEIGHT];
    frame[0] = b'.';
    Animation::from_frames(vec![frame]).unwrap()
}

fn cropped(rows: (i32, i32), cols: (i32, i32)) -> Config {
    let mut config = Config::default();
    config.show_counter = false;
    config.crop = CropBounds {
        rows: AxisCrop { min: Some(rows.0), max: Some(rows.1) },
        cols: AxisCrop { min: Some(cols.0), max: Some(cols.1) },
    };
    config
}

fn draw(config: &Config, palette: &Palette, frame_index: usize, animation: &Animation) -> Vec<u8> {
    let mut state = RenderState::new(config, TerminalSize::new(80, 24));
    state.finalize_auto_crop();
    let mut out = FrameBuffer::with_capacity(64);
    render_frame(&mut out, config, &state, palette, animation, frame_index, 0);
    out.into_bytes()
}

#[test]
fn cli_out_of_range_delay_names_option_and_bounds() {
    let err = parse_args(&args(&["nyancat", "--delay", "5"])).unwrap_err();
    assert_eq!(
        err,
        CliError::ValueOutOfRange { option: "--delay".to_string(), value: 5, min: 10, max: 1000 }
    );
    assert_eq!(err.message(), "value for --delay out of range: 5 (expected 10-1000)");
    let err = parse_args(&args(&["nyancat", "-d-20"])).unwrap_err();
    assert_eq!(err.message(), "value for -d out of range: -20 (expected 10-1000)");
}

#[test]
fn cli_invalid_and_missing_values_are_reported() {
    let err = parse_args(&args(&["nyancat", "-dabc"])).unwrap_err();
    assert_eq!(err, CliError::InvalidValue { option: "-d".to_string(), value: "abc".to_string() });
    assert_eq!(err.message(), "invalid value for -d: abc");
    let err = parse_args(&args(&["nyancat", "-f", "--telnet"])).unwrap_err();
    assert_eq!(err, CliError::InvalidValue { option: "-f".to_string(), value: "--telnet".to_string() });
    let err = parse_args(&args(&["nyancat", "--frames"])).unwrap_err();
    assert_eq!(err, CliError::MissingValue { option: "--frames".to_string() });
    assert_eq!(err.message(), "missing value for --frames");
}

#[test]
fn cli_unknown_short_options_are_named_by_their_first_byte() {
    let err = parse_args(&args(&["nyancat", "-?"])).unwrap_err();
    assert_eq!(err, CliError::UnknownOption { option: "-?".to_string() });
    assert_eq!(err.message(), "unknown option: -?");
    let err = parse_args(&args(&["nyancat", "-\u{e9}"])).unwrap_err();
    assert_eq!(err, CliError::UnknownOption { option: "-\u{c3}".to_string() });
}

#[test]
fn cli_double_dash_ends_options_and_words_are_skipped() {
    let action = parse_args(&args(&["nyancat", "word", "--", "--wat"])).unwrap();
    assert_eq!(action, CliAction::Run(Config::default()));
    let action = parse_args(&args(&["nyancat"])).unwrap();
    assert_eq!(action, CliAction::Run(Config::default()));
}

#[test]
fn cli_parse_i32_accepts_exactly_the_i32_range() {
    assert_eq!(parse_i32("2147483647"), Some(i32::MAX));
    assert_eq!(parse_i32("2147483648"), None);
    assert_eq!(parse_i32("-2147483648"), Some(i32::MIN));
    assert_eq!(parse_i32("-2147483649"), None);
    assert_eq!(parse_i32("+5"), Some(5));
    assert_eq!(parse_i32("007"), Some(7));
    assert_eq!(parse_i32("-"), None);
    assert_eq!(parse_i32(""), None);
    assert_eq!(parse_i32(" 5"), None);
    assert_eq!(parse_i32("5x"), None);
}

#[test]
fn render_ascii_cells_follow_the_frame() {
    let animation = one_frame_animation();
    let palette = Palette::new(TerminalType::Vt100Ascii);
    assert_eq!(draw(&cropped((0, 1), (0, 2)), &palette, 0, &animation), b"@.\n");
    assert_eq!(draw(&cropped((0, 1), (63, 65)), &palette, 0, &animation), b"..\n");
}

#[test]
fn render_rainbow_trail_lies_left_of_the_frame() {
    let animation = one_frame_animation();
    let palette = Palette::new(TerminalType::Vt100Ascii);
    // Row 25 of the trail is red ('>'), drawn as '#'; row 30 is yellow ('+'), drawn as '-'.
    assert_eq!(draw(&cropped((25, 26), (-1, 0)), &palette, 0, &animation), b"#\n");
    assert_eq!(draw(&cropped((30, 31), (-1, 0)), &palette, 0, &animation), b"-\n");
    assert_eq!(draw(&cropped((20, 21), (-1, 0)), &palette, 0, &animation), b".\n");
}

#[test]
fn render_colour_escape_is_sent_only_when_the_colour_changes() {
    let animation = one_frame_animation();
    let palette = Palette::new(TerminalType::Xterm256);
    let out = draw(&cropped((0, 1), (1, 3)), &palette, 0, &animation);
    assert_eq!(out, b"\x1b[48;5;17m    \n");
    let out = draw(&cropped((0, 1), (0, 2)), &palette, 0, &animation);
    assert_eq!(out, b"\x1b[48;5;231m  \x1b[48;5;17m  \n");
}

#[test]
fn render_next_frame_starts_with_the_frame_prefix() {
    let animation = one_frame_animation();
    let palette = Palette::new(TerminalType::Vt100Ascii);
    let mut config = cropped((0, 1), (0, 1));
    config.clear_screen = false;
    let state = RenderState::new(&config, TerminalSize::new(80, 24));
    let mut buffer = FrameBuffer::with_capacity(8);
    buffer.push_bytes(b"stale");
    render_next_frame(&mut buffer, &config, &state, &palette, &animation, 0, 0);
    assert_eq!(buffer.as_bytes(), b"\x1b[u@\n");
}

#[test]
fn render_startup_exit_and_intro_bytes() {
    let mut out = FrameBuffer::with_capacity(64);
    push_startup(&mut out, &Config::default());
    assert_eq!(
        out.as_bytes(),
        &b"\x1bkNyanyanyanyanyanyanya...\x1b\\\x1b]1;Nyanyanyanyanyanyanya...\x07\x1b]2;Nyanyanyanyanyanyanya...\x07\x1b[H\x1b[2J\x1b[?25l"[..]
    );
    let mut config = Config::default();
    config.set_title = false;
    config.clear_screen = false;
    let mut out = FrameBuffer::with_capacity(8);
    push_startup(&mut out, &config);
    assert_eq!(out.as_bytes(), b"\x1b[s");
    assert_eq!(exit_sequence(true), b"\x1b[?25h\x1b[0m\x1b[H\x1b[2J");
    assert_eq!(exit_sequence(false), b"\x1b[0m\n");
    assert_eq!(intro_end(true), b"\x1b[H\x1b[2J\x1b[?25l");
    assert_eq!(intro_end(false), b"");
    let mut out = FrameBuffer::with_capacity(1024);
    push_intro_screen(&mut out, true, 3);
    assert!(out.as_bytes().starts_with(b"\r\0\n\r\0\n\r\0\n                             \x1b[1mNyancat Telnet Server"));
    assert!(out.as_bytes().ends_with(b"\r\0\n\r\0\n        Starting in 3...                \n"));
}

#[test]
fn render_decimal_digits() {
    for (n, text) in [(0u64, "0"), (7, "7"), (10, "10"), (1234567890, "1234567890"), (u64::MAX, "18446744073709551615")] {
        let mut out = FrameBuffer::with_capacity(32);
        push_decimal(&mut out, n);
        assert_eq!(out.as_bytes(), text.as_bytes());
        assert_eq!(decimal_len(n), text.len());
    }
}

#[test]
fn render_counter_is_centred_under_the_frame() {
    let animation = one_frame_animation();
    let palette = Palette::new(TerminalType::Vt100Ascii);
    let mut config = cropped((0, 0), (0, 1));
    config.show_counter = true;
    let state = RenderState::new(&config, TerminalSize::new(80, 24));
    let mut out = FrameBuffer::with_capacity(128);
    render_frame(&mut out, &config, &state, &palette, &animation, 0, 5);
    let expected = format!("{}\x1b[1;37mYou have nyaned for 5 seconds!\x1b[J\x1b[0m", " ".repeat(25));
    assert_eq!(out.as_bytes(), expected.as_bytes());
}

#[test]
fn render_loop_cycles_through_every_frame() {
    let mut render_loop = RenderLoop::new(12);
    for _ in 0..25 {
        assert!(!render_loop.finish_frame(None));
    }
    assert_eq!(render_loop.frame_index(), 25 % 12);
    assert_eq!(render_loop.frames_rendered(), 25);
}

#[test]
fn benchmark_tracker_counts_frames_bytes_and_largest_frame() {
    let mut tracker = BenchmarkTracker::new();
    tracker.record_frame(100);
    tracker.record_frame(50);
    tracker.record_frame(120);
    let report = tracker.finish();
    assert_eq!(report.frames, 3);
    assert_eq!(report.bytes, 270);
    assert_eq!(report.max_frame_bytes, 120);
    let empty = BenchmarkTracker::new().finish();
    assert_eq!((empty.frames, empty.bytes, empty.max_frame_bytes), (0, 0, 0));
}

#[test]
fn animation_lines_group_into_frames() {
    let mut lines: Vec<Vec<u8>> = (0..FRAME_HEIGHT * 2).map(|_| vec![b','; FRAME_WIDTH]).collect();
    lines[FRAME_HEIGHT + 3][5] = b'@';
    let animation = Animation::from_lines(&lines).unwrap();
    assert_eq!(animation.frame_count(), 2);
    assert_eq!(animation.symbol(1, 5, 3), FrameSymbol::new(b'@'));
    assert_eq!(animation.symbol(0, 5, 3), FrameSymbol::new(b','));
    assert!(Animation::from_lines(&lines[..FRAME_HEIGHT - 1]).is_none());
    let mut short = lines.clone();
    short[7].pop();
    assert!(Animation::from_lines(&short).is_none());
    assert!(Animation::from_lines(&[]).is_none());
    assert!(Animation::from_frames(Vec::new()).is_none());
    assert!(Animation::from_frames(vec![vec![b','; 10]]).is_none());
}

#[test]
fn terminal_session_picks_mode_and_drawing_size() {
    let size = TerminalSize::new(100, 30);
    assert_eq!(session_terminal(true, Some("vt100"), size), (TerminalType::TrueColor, size));
    assert_eq!(session_terminal(false, None, size), (TerminalType::Ansi16, size));
    let narrow = TerminalSize::new(40, 30);
    assert_eq!(session_terminal(false, Some("VT100"), narrow), (TerminalType::Vt100Ascii, narrow));
    assert_eq!(session_terminal(false, Some("screen"), size), (TerminalType::Ansi16, size));
    assert_eq!(session_terminal(false, Some("st-256color"), size), (TerminalType::Xterm256, size));
}

#[test]
fn terminal_size_falls_back_to_eighty_by_twenty_four() {
    assert_eq!(terminal_size(0, 100, 30), TerminalSize::new(100, 30));
    assert_eq!(terminal_size(-1, 100, 30), TerminalSize::new(80, 24));
    assert_eq!(terminal_size(0, 0, 30), TerminalSize::new(80, 24));
    assert_eq!(terminal_size(0, 100, 0), TerminalSize::new(80, 24));
}

#[test]
fn telnet_command_bytes_round_trip() {
    for byte in 0..=255u8 {
        assert_eq!(TelnetCommand::from_byte(byte).raw(), byte);
    }
    assert_eq!(TelnetCommand::from_byte(241), TelnetCommand::Nop);
    assert_eq!(TelnetCommand::from_byte(7), TelnetCommand::Unknown(7));
}

#[test]
fn telnet_parser_gives_the_same_events_for_split_input() {
    let input = [b'a', IAC, 251, TTYPE, IAC, 250, TTYPE, 0, b'v', IAC, IAC, b't', IAC, 240, IAC, 241];
    let whole: Vec<TelnetEvent> = {
        let mut parser = TelnetParser::new();
        input.iter().filter_map(|b| parser.push(*b)).collect()
    };
    for split in 0..input.len() {
        let mut parser = TelnetParser::new();
        let mut events: Vec<TelnetEvent> = input[..split].iter().filter_map(|b| parser.push(*b)).collect();
        events.extend(input[split..].iter().filter_map(|b| parser.push(*b)));
        assert_eq!(events, whole);
    }
    assert_eq!(
        whole,
        vec![
            TelnetEvent::Negotiation { command: TelnetCommand::Will, option: nyancat::telnet::TelnetOption::new(TTYPE) },
            TelnetEvent::Subnegotiation(vec![TTYPE, 0, b'v', IAC, b't']),
            TelnetEvent::Command(TelnetCommand::Nop),
        ]
    );
}

#[test]
fn telnet_terminal_type_with_invalid_utf8_is_decoded_lossily() {
    assert_eq!(
        parse_subnegotiation(&[TTYPE, 0, 0xff, b'a']),
        Some(Subnegotiation::TerminalType("\u{fffd}a".to_string()))
    );
}

#[test]
fn telnet_timeout_reader_hands_out_buffered_bytes_in_order() {
    let mut reader = TimeoutReader::new();
    assert_eq!(reader.next_buffered(), None);
    assert_eq!(reader.refill(&[1, 2, 3]), Some(1));
    assert_eq!(reader.next_buffered(), Some(2));
    assert_eq!(reader.next_buffered(), Some(3));
    assert_eq!(reader.next_buffered(), None);
    assert_eq!(reader.refill(&[]), None);
    assert_eq!(reader.next_buffered(), None);
}

#[test]
fn classic_later_values_override_earlier_ones() {
    let mut config = ClassicConfig::default();
    assert!(!classic_parse_args(&args(&["nyancat", "-f3", "-f5", "-d50", "-d5000"]), &mut config));
    assert_eq!(config.frame_count, 5);
    assert_eq!(config.delay_ms, 50);
}

#[test]
fn classic_settings_carry_over_to_the_renderer() {
    let mut config = ClassicConfig::default();
    assert!(!classic_parse_args(&args(&["nyancat", "-tn", "-r", "4", "-R9"]), &mut config));
    let render = config.render_config();
    assert!(render.telnet && !render.show_counter && !render.benchmark && !render.truecolor);
    assert_eq!(render.crop.rows.as_pair(), (4, 9));
    assert_eq!(render.crop.cols.as_pair(), (-1, -1));
    assert!(render.crop.cols.is_automatic_range());
}

#[test]
fn animation_rejects_cells_that_are_no_frame_symbol() {
    for byte in b",.'@$->&+#=;*%" {
        assert!(is_frame_symbol_byte(*byte));
    }
    for byte in [b' ', b'a', b'0', 0u8, 0xffu8] {
        assert!(!is_frame_symbol_byte(byte));
    }
    assert!(all_frame_symbols_in(b",,..@@"));
    assert!(!all_frame_symbols_in(b",,x"));
    let mut frame = vec![b','; FRAME_WIDTH * FRAME_HEIGHT];
    frame[100] = b'x';
    assert!(Animation::from_frames(vec![frame]).is_none());
    let mut lines: Vec<Vec<u8>> = (0..FRAME_HEIGHT).map(|_| vec![b','; FRAME_WIDTH]).collect();
    lines[10][3] = b' ';
    assert!(Animation::from_lines(&lines).is_none());
}

#[test]
fn cli_delays_out_of_range_are_refused_and_accepted_ones_kept() {
    for d in [i32::MIN, -1, 0, 9, 1001, i32::MAX] {
        let err = parse_args(&args(&["nyancat", "--delay", &d.to_string()])).unwrap_err();
        assert_eq!(
            err,
            CliError::ValueOutOfRange { option: "--delay".to_string(), value: d, min: 10, max: 1000 }
        );
    }
    for d in [10, 500, 1000] {
        match parse_args(&args(&["nyancat", "--delay", &d.to_string()])).unwrap() {
            CliAction::Run(config) => assert_eq!(config.delay_ms, d as u64),
            other => panic!("expected a run, got {other:?}"),
        }
    }
}

#[test]
fn benchmark_totals_saturate_and_keep_the_largest_frame() {
    let mut tracker = BenchmarkTracker::new();
    tracker.record_frame(usize::MAX);
    tracker.record_frame(usize::MAX);
    tracker.record_frame(7);
    let report = tracker.finish();
    assert_eq!(report.frames, 3);
    assert_eq!(report.bytes, u64::MAX);
    assert_eq!(report.max_frame_bytes, usize::MAX);
}

#[test]
fn telnet_parser_drops_payload_bytes_past_the_limit() {
    let mut parser = TelnetParser::new();
    let mut events = Vec::new();
    let mut input = vec![IAC, 250];
    input.extend(std::iter::repeat(b'x').take(2000));
    input.extend([IAC, IAC, IAC, 240]);
    for byte in input {
        if let Some(event) = parser.push(byte) {
            events.push(event);
        }
    }
    assert_eq!(events, vec![TelnetEvent::Subnegotiation(vec![b'x'; 1023])]);
}

#[test]
fn animation_text_splits_at_newlines_and_skips_empty_lines() {
    assert_eq!(text_lines_of(b"ab\n\ncd\n"), vec![b"ab".to_vec(), b"cd".to_vec()]);
    assert_eq!(text_lines_of(b"\nab"), vec![b"ab".to_vec()]);
    assert_eq!(text_lines_of(b""), Vec::<Vec<u8>>::new());
    assert_eq!(text_lines_of(b"\n\n"), Vec::<Vec<u8>>::new());
    let mut text = Vec::new();
    for row in 0..FRAME_HEIGHT * 2 {
        let mut line = vec![b','; FRAME_WIDTH];
        if row == FRAME_HEIGHT + 1 {
            line[2] = b'@';
        }
        text.extend_from_slice(&line);
        text.extend_from_slice(b"\n\n");
    }
    let animation = Animation::from_bytes(&text).unwrap();
    assert_eq!(animation.frame_count(), 2);
    assert_eq!(animation.symbol(1, 2, 1), FrameSymbol::new(b'@'));
    text.extend_from_slice(b",,,\n");
    assert!(Animation::from_bytes(&text).is_none());
}

#[test]
fn telnet_ascii_terminal_type_arrives_unchanged() {
    assert_eq!(
        parse_subnegotiation(&[TTYPE, 0, b'x', b't', b'e', b'r', b'm']),
        Some(Subnegotiation::TerminalType("xterm".to_string()))
    );
}

#[test]
fn telnet_repeated_do_is_answered_once() {
    let mut negotiation = nyancat::telnet::TelnetNegotiation::new();
    let _ = negotiation.initial_output();
    let mut out = Vec::new();
    negotiation.handle_do_dont(nyancat::telnet::TelnetOption::new(1), &mut out);
    assert!(out.is_empty());
    negotiation.handle_do_dont(nyancat::telnet::TelnetOption::new(77), &mut out);
    negotiation.handle_do_dont(nyancat::telnet::TelnetOption::new(77), &mut out);
    assert_eq!(out, vec![IAC, 254, 77]);
}
