use nyancat::cli::{
    apply_value_option, option_by_long, option_by_short, option_specs, parse_args, usage_text, CliAction, CliError,
    Config, OptionSpec,
};

fn value_spec(short: char) -> OptionSpec {
    option_by_short(short).unwrap()
}

#[test]
fn cli_width_and_height_options_center_crop() {
    let mut config = Config::default();
    apply_value_option(&mut config, value_spec('W'), "-W", "40").unwrap();
    apply_value_option(&mut config, value_spec('H'), "-H", "24").unwrap();
    assert_eq!(config.crop.cols.as_pair(), (12, 52));
    assert_eq!(config.crop.rows.as_pair(), (20, 44));
}

#[test]
fn option_specs_resolve_long_and_short_forms() {
    let frames = option_by_long("frames").unwrap();

    assert_eq!(frames.short, 'f');
    assert_eq!(option_by_short('f'), Some(frames));
    assert!(frames.takes_value());
    assert!(!option_by_long("telnet").unwrap().takes_value());
    assert_eq!(option_by_long("wat"), None);
    assert_eq!(option_by_short('?'), None);
}

#[test]
fn option_specs_are_unique() {
    let specs = option_specs();
    for (index, spec) in specs.iter().enumerate() {
        for other in &specs[index + 1..] {
            assert_ne!(spec.short, other.short);
            assert_ne!(spec.long, other.long);
        }
    }
}

#[test]
fn usage_text_lists_every_option_spec() {
    let usage = usage_text("nyancat");

    for spec in option_specs() {
        assert!(usage.contains(&format!("-{}, --{}", spec.short, spec.long)));
        assert!(usage.contains(spec.description));
        if let Some(value_name) = spec.value_name {
            assert!(usage.contains(&format!("<{value_name}>")));
        }
    }
}

#[test]
fn usage_text_resets_italic_descriptions() {
    let usage = usage_text("nyancat");

    for line in usage.lines().filter(|line| line.contains("\x1b[3m")) {
        assert!(line.ends_with("\x1b[0m"));
    }
}

#[test]
fn default_crop_is_automatic() {
    let config = Config::default();

    assert_eq!(config.crop.cols.as_pair(), (-1, -1));
    assert_eq!(config.crop.rows.as_pair(), (-1, -1));
    assert!(config.crop.cols.is_automatic_range());
    assert!(config.crop.rows.is_automatic_range());
}

#[test]
fn parses_short_flags_and_options() {
    let args = vec![
        "nyancat".to_string(),
        "-Tnse".to_string(),
        "-d".to_string(),
        "120".to_string(),
        "-f3".to_string(),
        "--skip-intro".to_string(),
        "--width=40".to_string(),
        "--height".to_string(),
        "24".to_string(),
    ];

    let CliAction::Run(config) = parse_args(&args).unwrap() else {
        panic!("expected run action");
    };

    assert!(config.truecolor);
    assert!(!config.show_counter);
    assert!(!config.set_title);
    assert!(!config.clear_screen);
    assert_eq!(config.delay_ms, 120);
    assert_eq!(config.frame_count, 3);
    assert!(config.skip_intro);
    assert_eq!(config.crop.cols.as_pair(), (12, 52));
    assert_eq!(config.crop.rows.as_pair(), (20, 44));
}

#[test]
fn help_is_returned_without_exiting() {
    let args = vec!["nyancat".to_string(), "--help".to_string()];

    assert_eq!(
        parse_args(&args),
        Ok(CliAction::Help {
            program: "nyancat".to_string()
        })
    );
}

#[test]
fn invalid_delay_is_reported() {
    let mut config = Config::default();
    let delay = value_spec('d');

    assert_eq!(
        apply_value_option(&mut config, delay, "-d", "9"),
        Err(CliError::ValueOutOfRange {
            option: "-d".to_string(),
            value: 9,
            min: 10,
            max: 1000,
        })
    );
    assert_eq!(
        apply_value_option(&mut config, delay, "-d", "not-a-number"),
        Err(CliError::InvalidValue {
            option: "-d".to_string(),
            value: "not-a-number".to_string(),
        })
    );
}

#[test]
fn missing_option_value_is_reported() {
    let args = vec!["nyancat".to_string(), "-d".to_string()];

    assert_eq!(
        parse_args(&args),
        Err(CliError::MissingValue {
            option: "-d".to_string()
        })
    );
}

#[test]
fn unknown_option_is_reported() {
    let args = vec!["nyancat".to_string(), "--wat".to_string()];

    assert_eq!(
        parse_args(&args),
        Err(CliError::UnknownOption {
            option: "--wat".to_string()
        })
    );
}
