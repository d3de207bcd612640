use vid2gif::cli::Args;
use vid2gif::convert::compression_text;
use vid2gif::convert::size_report;
use vid2gif::convert::subprocess_result;
use vid2gif::convert::validate;
use vid2gif::convert::ConvertError;
use vid2gif::convert::VideoConverter;
use vid2gif::speed::Speed;

fn args_with_speed(millis: i64) -> Args {
    Args {
        input: "test.webm".to_string(),
        output: "test.gif".to_string(),
        speed: Speed { millis },
        looping: false,
    }
}

#[test]
fn zero_speed_fails_validation() {
    let r = validate(&args_with_speed(0), true);
    assert!(matches!(r, Err(ConvertError::InvalidSpeed)));
}

#[test]
fn negative_speed_fails_validation() {
    let r = validate(&args_with_speed(-1000), true);
    assert!(matches!(r, Err(ConvertError::InvalidSpeed)));
    assert_eq!(
        r.unwrap_err().message(),
        "Speed must be greater than 0".to_string()
    );
}

#[test]
fn positive_speed_with_existing_input_passes() {
    assert!(validate(&args_with_speed(1000), true).is_ok());
}

#[test]
fn absent_input_fails_before_anything_runs() {
    let r = validate(&args_with_speed(1000), false);
    match r {
        Err(ConvertError::MissingInput(p)) => assert_eq!(p, "test.webm".to_string()),
        _ => panic!("expected the missing-input error"),
    }
}

#[test]
fn missing_input_message_names_the_path() {
    let r = validate(&args_with_speed(1000), false);
    assert_eq!(
        r.unwrap_err().message(),
        "Input file does not exist: test.webm".to_string()
    );
}

#[test]
fn input_check_comes_before_the_speed_check() {
    let r = validate(&args_with_speed(0), false);
    assert!(matches!(r, Err(ConvertError::MissingInput(_))));
}

#[test]
fn subprocess_success_passes() {
    assert!(subprocess_result(true, String::new()).is_ok());
}

#[test]
fn subprocess_failure_carries_the_diagnostics() {
    let r = subprocess_result(false, "frame dropped".to_string());
    match r {
        Err(ConvertError::FfmpegFailed(s)) => assert_eq!(s, "frame dropped".to_string()),
        _ => panic!("expected the processor-failure error"),
    }
    let again = subprocess_result(false, "frame dropped".to_string());
    assert_eq!(
        again.unwrap_err().message(),
        "ffmpeg failed with error:\nframe dropped".to_string()
    );
}

#[test]
fn missing_processor_message_gives_install_guidance() {
    assert_eq!(
        ConvertError::MissingFfmpeg.message(),
        "ffmpeg not found in PATH. Please install ffmpeg to use this tool.".to_string()
    );
}

#[test]
fn converter_from_a_successful_lookup_keeps_the_path() {
    let c = VideoConverter::from_lookup(Some("/usr/bin/ffmpeg".to_string())).unwrap_or_else(|_| {
        panic!("expected a converter")
    });
    assert_eq!(c.ffmpeg_path, "/usr/bin/ffmpeg".to_string());
    assert!(matches!(
        VideoConverter::from_lookup(None),
        Err(ConvertError::MissingFfmpeg)
    ));
}

#[test]
fn report_for_a_quartered_file() {
    let r = size_report(1_024_000, 256_000);
    assert_eq!(r.input_kb, 1000);
    assert_eq!(r.output_kb, 250);
    assert_eq!(r.compression_tenths, 750);
    assert_eq!(compression_text(r.compression_tenths), "75.0".to_string());
}

#[test]
fn report_when_the_output_grew() {
    let r = size_report(100, 250);
    assert_eq!(r.compression_tenths, -1500);
    assert_eq!(compression_text(r.compression_tenths), "-150.0".to_string());
}

#[test]
fn compression_rounds_to_the_nearest_tenth() {
    let r = size_report(3, 2);
    assert_eq!(r.compression_tenths, 333);
    assert_eq!(compression_text(r.compression_tenths), "33.3".to_string());
    let half = size_report(1000, 995);
    assert_eq!(half.compression_tenths, 5);
    assert_eq!(compression_text(half.compression_tenths), "0.5".to_string());
}

#[test]
fn unchanged_size_reports_zero() {
    let r = size_report(4096, 4096);
    assert_eq!(r.compression_tenths, 0);
    assert_eq!(compression_text(r.compression_tenths), "0.0".to_string());
}
