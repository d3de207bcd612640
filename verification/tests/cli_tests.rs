use vid2gif::cli::parse_args;
use vid2gif::cli::CliError;

fn argv(tokens: &[&str]) -> Vec<String> {
    tokens.iter().map(|t| t.to_string()).collect()
}

#[test]
fn test_args_parsing() {
    let args = parse_args(&argv(&[
        "vid2gif", "--input", "test.webm", "--output", "test.gif", "--speed", "2.0", "--loop",
    ]))
    .unwrap();
    assert_eq!(args.input, "test.webm".to_string());
    assert_eq!(args.output, "test.gif".to_string());
    assert_eq!(args.speed.millis, 2000);
    assert!(args.looping);
}

#[test]
fn test_default_speed() {
    let args = parse_args(&argv(&["vid2gif", "--input", "test.webm", "--output", "test.gif"]))
        .unwrap();
    assert_eq!(args.speed.millis, 1000);
    assert!(!args.looping);
}

#[test]
fn short_flags_parse_like_long_ones() {
    let args = parse_args(&argv(&[
        "vid2gif", "-i", "clip.mp4", "-o", "clip.gif", "-s", "0.5",
    ]))
    .unwrap();
    assert_eq!(args.input, "clip.mp4".to_string());
    assert_eq!(args.output, "clip.gif".to_string());
    assert_eq!(args.speed.millis, 500);
    assert!(!args.looping);
}

#[test]
fn missing_input_is_reported() {
    let e = parse_args(&argv(&["vid2gif", "--output", "test.gif"])).unwrap_err();
    assert_eq!(e, CliError::MissingInput);
}

#[test]
fn missing_output_is_reported() {
    let e = parse_args(&argv(&["vid2gif", "--input", "test.webm"])).unwrap_err();
    assert_eq!(e, CliError::MissingOutput);
}

#[test]
fn unknown_argument_is_rejected() {
    let e = parse_args(&argv(&[
        "vid2gif", "--input", "test.webm", "--output", "test.gif", "--fast",
    ]))
    .unwrap_err();
    assert_eq!(e, CliError::UnknownArgument);
}

#[test]
fn option_without_value_is_rejected() {
    let e = parse_args(&argv(&["vid2gif", "--input", "test.webm", "--output"])).unwrap_err();
    assert_eq!(e, CliError::MissingValue);
}

#[test]
fn repeated_option_is_rejected() {
    let e = parse_args(&argv(&[
        "vid2gif", "--input", "a.webm", "--input", "b.webm", "--output", "test.gif",
    ]))
    .unwrap_err();
    assert_eq!(e, CliError::DuplicateArgument);
}

#[test]
fn malformed_speed_is_rejected() {
    let e = parse_args(&argv(&[
        "vid2gif", "--input", "test.webm", "--output", "test.gif", "--speed", "fast",
    ]))
    .unwrap_err();
    assert_eq!(e, CliError::BadSpeed);
}

#[test]
fn empty_argv_is_missing_input() {
    let e = parse_args(&argv(&[])).unwrap_err();
    assert_eq!(e, CliError::MissingInput);
}

#[test]
fn cli_error_messages_name_the_missing_option() {
    assert_eq!(
        CliError::MissingInput.message(),
        "the required --input option is missing".to_string()
    );
    assert_eq!(
        CliError::MissingOutput.message(),
        "the required --output option is missing".to_string()
    );
    assert_eq!(CliError::BadSpeed.message(), "the speed is not a decimal number".to_string());
}
