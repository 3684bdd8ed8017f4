use nyancat::terminal::{detect_terminal_type, TerminalSize, TerminalType};

#[test]
fn terminal_detects_expected_terminal_types() {
    assert_eq!(
        detect_terminal_type(Some("xterm-256color"), TerminalSize::new(80, 24)),
        TerminalType::Xterm256
    );
    assert_eq!(
        detect_terminal_type(Some("linux"), TerminalSize::new(80, 24)),
        TerminalType::Linux
    );
    assert_eq!(
        detect_terminal_type(Some("vt220"), TerminalSize::new(80, 24)),
        TerminalType::Vt220
    );
    assert_eq!(
        detect_terminal_type(Some("vt100"), TerminalSize::new(40, 24)),
        TerminalType::Vt100Ascii
    );
    assert_eq!(
        detect_terminal_type(None, TerminalSize::new(80, 24)),
        TerminalType::Ansi16
    );
}

#[test]
fn terminal_size_defaults_to_standard_dimensions() {
    assert_eq!(TerminalSize::default(), TerminalSize::new(80, 24));
    assert_eq!(
        TerminalSize::new(80, 24).with_width(40),
        TerminalSize::new(40, 24)
    );
}
