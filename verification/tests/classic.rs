use nyancat::classic::negotiation::{negotiate_telnet, ClassicNegotiation};
use nyancat::classic::options::{
    apply_flag, apply_option, long_to_short, option_requires_value, parse_args, usage_text, Config,
};
use nyancat::classic::{detect_terminal_type, palette_for_code, push_newline, terminal_code, terminal_type_for_code};
use nyancat::animation::FrameSymbol;
use nyancat::telnet::{TelnetState, IAC, NAWS, TTYPE};
use nyancat::terminal::TerminalType;

const SE: u8 = 240;
const NOP: u8 = 241;
const SB: u8 = 250;
const WILL: u8 = 251;
const DO: u8 = 253;
const DONT: u8 = 254;

fn args(list: &[&str]) -> Vec<String> {
    list.iter().map(|a| a.to_string()).collect()
}

fn parsed(list: &[&str]) -> (bool, Config) {
    let mut config = Config::default();
    let help = parse_args(&args(list), &mut config);
    (help, config)
}

fn contains(haystack: &[u8], needle: &[u8]) -> bool {
    haystack.windows(needle.len()).any(|window| window == needle)
}

#[test]
fn main_detects_expected_terminal_types() {
    assert_eq!(detect_terminal_type(Some("xterm-256color"), 80), 1);
    assert_eq!(detect_terminal_type(Some("linux"), 80), 3);
    assert_eq!(detect_terminal_type(Some("vt220"), 80), 6);
    assert_eq!(detect_terminal_type(Some("vt100"), 40), 7);
    assert_eq!(detect_terminal_type(None, 80), 2);
}

#[test]
fn main_width_and_height_options_center_crop() {
    let mut config = Config::default();
    apply_option(&mut config, 'W', "40");
    apply_option(&mut config, 'H', "24");
    assert_eq!((config.min_col, config.max_col), (12, 52));
    assert_eq!((config.min_row, config.max_row), (20, 44));
}

#[test]
fn classic_codes_name_terminal_types_in_order() {
    assert_eq!(terminal_code(TerminalType::Xterm256), 1);
    assert_eq!(terminal_code(TerminalType::TrueColor), 8);
    assert_eq!(terminal_type_for_code(5), Some(TerminalType::Vtnt));
    assert_eq!(terminal_type_for_code(0), None);
    assert_eq!(terminal_type_for_code(9), None);
    assert_eq!(detect_terminal_type(Some("TrueColor"), 80), 8);
    assert_eq!(detect_terminal_type(Some("vt100"), 80), 2);
    assert_eq!(detect_terminal_type(Some("rxvt-unicode"), 80), 3);
}

#[test]
fn classic_default_config_matches_the_documented_defaults() {
    let config = Config::default();
    assert!(!config.telnet);
    assert!(config.show_counter);
    assert_eq!(config.frame_count, 0);
    assert!(config.clear_screen);
    assert!(config.set_title);
    assert!(!config.show_intro);
    assert!(!config.skip_intro);
    assert_eq!(config.delay_ms, 90);
    assert_eq!((config.min_row, config.max_row, config.min_col, config.max_col), (-1, -1, -1, -1));
}

#[test]
fn classic_options_take_numbers_leniently() {
    let mut config = Config::default();
    apply_option(&mut config, 'd', "2000");
    assert_eq!(config.delay_ms, 90);
    apply_option(&mut config, 'd', "not-a-number");
    assert_eq!(config.delay_ms, 90);
    apply_option(&mut config, 'd', "10");
    assert_eq!(config.delay_ms, 10);
    apply_option(&mut config, 'f', "-5");
    assert_eq!(config.frame_count, 0);
    apply_option(&mut config, 'f', "+7");
    assert_eq!(config.frame_count, 7);
    apply_option(&mut config, 'r', "3");
    apply_option(&mut config, 'R', "x");
    apply_option(&mut config, 'c', "-4");
    apply_option(&mut config, 'C', "61");
    assert_eq!((config.min_row, config.max_row, config.min_col, config.max_col), (3, 0, -4, 61));
    apply_option(&mut config, 'W', "7");
    assert_eq!((config.min_col, config.max_col), (28, 35));
    apply_option(&mut config, 'H', "100");
    assert_eq!((config.min_row, config.max_row), (-18, 82));
    let before = config;
    apply_option(&mut config, 'q', "12");
    assert_eq!(config, before);
}

#[test]
fn classic_width_of_extreme_values_does_not_wrap() {
    let mut config = Config::default();
    apply_option(&mut config, 'W', "2147483647");
    assert_eq!((config.min_col, config.max_col), (-1073741791, 1073741855));
    apply_option(&mut config, 'H', "-2147483648");
    assert_eq!((config.min_row, config.max_row), (1073741856, -1073741792));
}

#[test]
fn classic_long_names_map_to_option_letters() {
    assert_eq!(long_to_short("delay"), 'd');
    assert_eq!(long_to_short("frames"), 'f');
    assert_eq!(long_to_short("min-rows"), 'r');
    assert_eq!(long_to_short("max-rows"), 'R');
    assert_eq!(long_to_short("min-cols"), 'c');
    assert_eq!(long_to_short("max-cols"), 'C');
    assert_eq!(long_to_short("width"), 'W');
    assert_eq!(long_to_short("height"), 'H');
    assert_eq!(long_to_short("telnet"), '\0');
    for opt in ['d', 'f', 'r', 'R', 'c', 'C', 'W', 'H'] {
        assert!(option_requires_value(opt));
    }
    for opt in ['e', 's', 'i', 'I', 't', 'h', 'n', 'x'] {
        assert!(!option_requires_value(opt));
    }
}

#[test]
fn classic_flags_set_their_fields() {
    let mut config = Config::default();
    assert!(!apply_flag(&mut config, 'e'));
    assert!(!apply_flag(&mut config, 's'));
    assert!(!apply_flag(&mut config, 'i'));
    assert!(!apply_flag(&mut config, 'I'));
    assert!(!apply_flag(&mut config, 't'));
    assert!(!apply_flag(&mut config, 'n'));
    assert!(!apply_flag(&mut config, 'z'));
    assert!(!config.clear_screen && !config.set_title && !config.show_counter);
    assert!(config.show_intro && config.skip_intro && config.telnet);
    assert!(apply_flag(&mut config, 'h'));
}

#[test]
fn classic_parse_args_reads_clusters_long_options_and_skips_unknown_ones() {
    let (help, config) = parsed(&[
        "nyancat", "-tn", "--delay=50", "--wat", "-f", "3", "stray", "--min-rows", "2", "-x", "--", "-i",
    ]);
    assert!(!help);
    assert!(config.telnet);
    assert!(!config.show_counter);
    assert_eq!(config.delay_ms, 50);
    assert_eq!(config.frame_count, 3);
    assert_eq!(config.min_row, 2);
    assert!(!config.show_intro);
}

#[test]
fn classic_parse_args_stops_at_help() {
    assert!(parsed(&["nyancat", "-th"]).0);
    assert!(parsed(&["nyancat", "--help"]).0);
    assert!(parsed(&["nyancat", "--help=now"]).0);
    assert!(!parsed(&["nyancat", "--", "--help"]).0);
    assert!(!parsed(&["nyancat", "-"]).0);
}

#[test]
fn classic_parse_args_gives_a_missing_value_the_empty_string() {
    let (help, config) = parsed(&["nyancat", "-W"]);
    assert!(!help);
    assert_eq!((config.min_col, config.max_col), (32, 32));
    let (_, config) = parsed(&["nyancat", "--frames"]);
    assert_eq!(config.frame_count, 0);
}

#[test]
fn classic_parse_args_takes_attached_values_and_skips_non_ascii_letters() {
    let (_, config) = parsed(&["nyancat", "-\u{e9}d20", "-Hx", "--width=8", "-sW", "10"]);
    assert_eq!(config.delay_ms, 20);
    assert_eq!((config.min_row, config.max_row), (32, 32));
    assert_eq!((config.min_col, config.max_col), (27, 37));
    assert!(!config.set_title);
}

#[test]
fn classic_usage_text_names_the_program_and_every_option() {
    let text = usage_text("nyancat");
    assert!(text.starts_with("Terminal Nyancat\n\nusage: nyancat [-hitn] [-f \x1b[3mframes\x1b[0m]\n\n-i --intro "));
    assert!(text.contains("-W --width      \x1b[3mCrop the animation to the given width\x1b[0m\n"));
    assert!(text.contains("-d --delay      \x1b[3mDelay image rendering by anywhere between 10ms and 1000ms\n"));
    assert!(text.ends_with("-h --help       \x1b[3mShow this help message.\x1b[0m"));
    for letter in ['i', 't', 'n', 's', 'e', 'd', 'f', 'r', 'R', 'c', 'C', 'W', 'H', 'h'] {
        assert!(text.contains(&format!("\n-{letter} --")));
    }
}

#[test]
fn classic_palette_codes_pick_tables_and_outputs() {
    let empty = palette_for_code(0);
    assert_eq!(empty.color(FrameSymbol::new(b',')), b"");
    assert_eq!(empty.output(), Some(&b"  "[..]));
    let fallback = palette_for_code(4);
    assert_eq!(fallback.color(FrameSymbol::new(b',')), b"\x1b[0;34;44m");
    assert_eq!(fallback.output(), Some("\u{2588}\u{2588}".as_bytes()));
    let vtnt = palette_for_code(5);
    assert_eq!(vtnt.output(), Some(&[0xdbu8, 0xdb][..]));
    let vt220 = palette_for_code(6);
    assert_eq!(vt220.color(FrameSymbol::new(b'-')), b"<>");
    assert_eq!(vt220.output(), None);
    let truecolor = palette_for_code(8);
    assert_eq!(truecolor.color(FrameSymbol::new(b'>')), b"\x1b[48;2;255;25;0m");
}

#[test]
fn classic_push_newline_repeats_the_terminator() {
    let mut out = vec![b'x'];
    push_newline(&mut out, true, 2);
    assert_eq!(out, b"x\r\0\n\r\0\n");
    let mut out = Vec::new();
    push_newline(&mut out, false, 3);
    assert_eq!(out, b"\n\n\n");
    let mut out = Vec::new();
    push_newline(&mut out, false, 0);
    assert!(out.is_empty());
}

#[test]
fn classic_send_command_suppresses_repeats() {
    let mut state = TelnetState::new();
    let mut out = Vec::new();
    state.send_command(&mut out, DO, TTYPE);
    assert_eq!(out, vec![IAC, DO, TTYPE]);
    state.send_command(&mut out, DO, TTYPE);
    assert_eq!(out, vec![IAC, DO, TTYPE]);
    state.send_command(&mut out, DONT, TTYPE);
    assert_eq!(out, vec![IAC, DO, TTYPE, IAC, DONT, TTYPE]);
    state.send_command(&mut out, NOP, 0);
    state.send_command(&mut out, NOP, 0);
    assert_eq!(&out[6..], &[IAC, NOP, IAC, NOP]);
}

#[test]
fn classic_negotiation_reads_terminal_type_and_size() {
    let input = vec![
        IAC, WILL, TTYPE, IAC, SB, TTYPE, 0, b'x', b't', b'e', b'r', b'm', IAC, SE, IAC, SB, NAWS, 0, 100, 0, 40, IAC,
        SE, IAC, NOP,
    ];
    let mut out = Vec::new();
    let info = negotiate_telnet(&mut out, &input);
    assert_eq!(info.term.as_deref(), Some("xterm"));
    assert_eq!(info.width, Some(100));
    assert_eq!(info.height, Some(40));
    assert!(contains(&out, &[IAC, DO, TTYPE]));
    assert!(contains(&out, &[IAC, DO, NAWS]));
    assert!(contains(&out, &[IAC, SB, TTYPE, 1, IAC, SE]));
    assert!(!contains(&out, &[IAC, NOP]));
}

#[test]
fn classic_negotiation_keeps_zero_sizes_and_answers_nop() {
    let mut out = Vec::new();
    let info = negotiate_telnet(&mut out, &[IAC, NOP, IAC, SB, NAWS, 0, 0, 0, 0, IAC, SE]);
    assert_eq!((info.width, info.height), (Some(0), Some(0)));
    assert_eq!(info.term, None);
    assert!(out.ends_with(&[IAC, NOP]));
}

#[test]
fn classic_negotiation_ends_on_iac_iac() {
    let mut out = Vec::new();
    let info = negotiate_telnet(&mut out, &[IAC, IAC, IAC, SB, NAWS, 0, 80, 0, 24, IAC, SE]);
    assert_eq!((info.width, info.height, info.term), (None, None, None));
}

#[test]
fn classic_negotiation_refuses_unknown_options() {
    let (mut session, announcement) = ClassicNegotiation::new();
    assert!(contains(&announcement, &[IAC, WILL, 3]));
    let mut replies = Vec::new();
    for byte in [IAC, DO, 200, IAC, WILL, 201, IAC, DO, 200] {
        let step = session.feed(byte);
        assert!(!step.extend_deadline);
        replies.extend_from_slice(&step.output);
    }
    assert_eq!(replies, vec![IAC, DONT, 200, IAC, 252, 201]);
    assert!(!session.is_complete());
}

#[test]
fn classic_negotiation_reports_news_on_subnegotiation_end() {
    let (mut session, _) = ClassicNegotiation::new();
    let mut news = Vec::new();
    for byte in [IAC, SB, TTYPE, 0, b'v', b't', IAC, SE] {
        news.push(session.feed(byte).extend_deadline);
    }
    assert_eq!(news, vec![false, false, false, false, false, false, false, true]);
    let info = session.into_info();
    assert_eq!(info.term.as_deref(), Some("vt"));
}
