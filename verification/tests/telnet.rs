use nyancat::telnet::{
    negotiate_telnet_with_source, parse_subnegotiation, Subnegotiation, TelnetCommand, TelnetEvent, TelnetInfo,
    TelnetNegotiation, TelnetOption, TelnetParser, IAC, LINEMODE, NAWS, NEW_ENVIRON, SEND, SGA, TTYPE, ECHO,
};
use nyancat::terminal::TerminalSize;

fn parser_events(bytes: &[u8]) -> Vec<TelnetEvent> {
    let mut parser = TelnetParser::new();
    bytes.iter().filter_map(|byte| parser.push(*byte)).collect()
}

fn contains(haystack: &[u8], needle: &[u8]) -> bool {
    haystack
        .windows(needle.len())
        .any(|window| window == needle)
}

fn command(command: TelnetCommand) -> u8 {
    command.raw()
}

fn option(option: u8) -> u8 {
    TelnetOption::new(option).raw()
}

fn option_command(command: TelnetCommand, option: u8) -> [u8; 3] {
    [IAC, command.raw(), TelnetOption::new(option).raw()]
}

fn terminal_type_send() -> [u8; 6] {
    [
        IAC,
        command(TelnetCommand::Sb),
        option(TTYPE),
        SEND,
        IAC,
        command(TelnetCommand::Se),
    ]
}

#[test]
fn parses_terminal_type_subnegotiation() {
    assert_eq!(
        parse_subnegotiation(&[option(TTYPE), 0, b'x', b't', b'e', b'r', b'm']),
        Some(Subnegotiation::TerminalType("xterm".to_string()))
    );
}

#[test]
fn parses_window_size_subnegotiation() {
    assert_eq!(
        parse_subnegotiation(&[option(NAWS), 0, 120, 0, 40]),
        Some(Subnegotiation::WindowSize(TerminalSize::new(120, 40)))
    );
}

#[test]
fn ignores_zero_window_size_subnegotiation() {
    assert_eq!(parse_subnegotiation(&[option(NAWS), 0, 0, 0, 40]), None);
    assert_eq!(parse_subnegotiation(&[option(NAWS), 0, 120, 0, 0]), None);
}

#[test]
fn ignores_incomplete_or_unknown_subnegotiation() {
    assert_eq!(parse_subnegotiation(&[]), None);
    assert_eq!(parse_subnegotiation(&[option(TTYPE)]), None);
    assert_eq!(parse_subnegotiation(&[option(NAWS), 0, 80, 0]), None);
    assert_eq!(parse_subnegotiation(&[option(NEW_ENVIRON), 0]), None);
}

#[test]
fn parser_emits_negotiation_commands() {
    assert_eq!(
        parser_events(&[IAC, command(TelnetCommand::Will), option(TTYPE)]),
        vec![TelnetEvent::Negotiation {
            command: TelnetCommand::Will,
            option: TelnetOption::new(TTYPE),
        }]
    );
}

#[test]
fn parser_emits_subnegotiation_payloads() {
    assert_eq!(
        parser_events(&[
            IAC,
            command(TelnetCommand::Sb),
            option(NAWS),
            0,
            80,
            0,
            24,
            IAC,
            command(TelnetCommand::Se)
        ]),
        vec![TelnetEvent::Subnegotiation(vec![option(NAWS), 0, 80, 0, 24])]
    );
}

#[test]
fn parser_keeps_subnegotiation_mode_after_embedded_commands() {
    assert_eq!(
        parser_events(&[
            IAC,
            command(TelnetCommand::Sb),
            b'a',
            IAC,
            command(TelnetCommand::Nop),
            b'b',
            IAC,
            command(TelnetCommand::Se)
        ]),
        vec![
            TelnetEvent::Command(TelnetCommand::Nop),
            TelnetEvent::Subnegotiation(vec![b'a', b'b']),
        ]
    );
}

#[test]
fn parser_ignores_escaped_iac_data() {
    assert_eq!(parser_events(&[IAC, IAC]), Vec::<TelnetEvent>::new());
}

#[test]
fn parser_keeps_escaped_iac_inside_subnegotiation() {
    assert_eq!(
        parser_events(&[
            IAC,
            command(TelnetCommand::Sb),
            option(TTYPE),
            0,
            b'x',
            IAC,
            IAC,
            b'y',
            IAC,
            command(TelnetCommand::Se)
        ]),
        vec![TelnetEvent::Subnegotiation(vec![option(TTYPE), 0, b'x', IAC, b'y'])]
    );
}

#[test]
fn initial_output_advertises_supported_options() {
    let mut negotiation = TelnetNegotiation::new();
    let output = negotiation.initial_output();

    assert!(contains(&output, &option_command(TelnetCommand::Wont, ECHO)));
    assert!(contains(&output, &option_command(TelnetCommand::Will, SGA)));
    assert!(contains(&output, &option_command(TelnetCommand::Do, TTYPE)));
    assert!(contains(&output, &option_command(TelnetCommand::Do, NAWS)));
    assert!(contains(&output, &option_command(TelnetCommand::Dont, LINEMODE)));
    assert!(contains(&output, &option_command(TelnetCommand::Wont, NEW_ENVIRON)));
}

#[test]
fn will_ttype_requests_terminal_type() {
    let mut negotiation = TelnetNegotiation::new();
    let _ = negotiation.initial_output();

    let step = negotiation.handle_event(TelnetEvent::Negotiation {
        command: TelnetCommand::Will,
        option: TelnetOption::new(TTYPE),
    });

    assert_eq!(step.output, terminal_type_send());
    assert!(!step.extend_deadline);
}

#[test]
fn unknown_options_remain_pass_through_and_are_rejected() {
    let unknown = TelnetOption::new(200);
    let mut negotiation = TelnetNegotiation::new();
    let _ = negotiation.initial_output();

    let step = negotiation.handle_event(TelnetEvent::Negotiation {
        command: TelnetCommand::Will,
        option: unknown,
    });

    assert_eq!(step.output, option_command(TelnetCommand::Wont, unknown.raw()));

    let step = negotiation.handle_event(TelnetEvent::Negotiation {
        command: TelnetCommand::Do,
        option: unknown,
    });

    assert_eq!(step.output, option_command(TelnetCommand::Dont, unknown.raw()));
}

#[test]
fn subnegotiation_updates_telnet_info() {
    let mut negotiation = TelnetNegotiation::new();

    let step = negotiation.handle_event(TelnetEvent::Subnegotiation(vec![
        option(TTYPE),
        0,
        b'v',
        b't',
        b'1',
        b'0',
        b'0',
    ]));

    assert!(step.extend_deadline);
    assert_eq!(negotiation.info.term.as_deref(), Some("vt100"));
    assert!(!negotiation.is_complete());

    let step = negotiation.handle_event(TelnetEvent::Subnegotiation(vec![option(NAWS), 0, 80, 0, 24]));

    assert!(step.extend_deadline);
    assert_eq!(negotiation.info.size, Some(TerminalSize::new(80, 24)));
    assert!(negotiation.is_complete());
}

#[test]
fn negotiate_telnet_reads_scripted_terminal_info() {
    let input = vec![
        IAC,
        command(TelnetCommand::Will),
        option(TTYPE),
        IAC,
        command(TelnetCommand::Sb),
        option(TTYPE),
        0,
        b'x',
        b't',
        b'e',
        b'r',
        b'm',
        IAC,
        command(TelnetCommand::Se),
        IAC,
        command(TelnetCommand::Sb),
        option(NAWS),
        0,
        100,
        0,
        40,
        IAC,
        command(TelnetCommand::Se),
    ];
    let mut output = Vec::new();

    let info = negotiate_telnet_with_source(&mut output, &input);

    assert_eq!(info.term.as_deref(), Some("xterm"));
    assert_eq!(info.size, Some(TerminalSize::new(100, 40)));
    assert!(contains(&output, &option_command(TelnetCommand::Do, TTYPE)));
    assert!(contains(&output, &option_command(TelnetCommand::Do, NAWS)));
    assert!(contains(&output, &terminal_type_send()));
}

#[test]
fn negotiate_telnet_stops_when_scripted_input_ends() {
    let input: Vec<u8> = Vec::new();
    let mut output = Vec::new();

    let info = negotiate_telnet_with_source(&mut output, &input);

    assert_eq!(info, TelnetInfo::default());
    assert!(contains(&output, &option_command(TelnetCommand::Do, TTYPE)));
    assert!(contains(&output, &option_command(TelnetCommand::Do, NAWS)));
}
