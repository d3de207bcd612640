use vid2gif::cli::Args;
use vid2gif::command::ffmpeg_args;
use vid2gif::command::filter_expr;
use vid2gif::command::loop_arg;
use vid2gif::command::thousandths_text;
use vid2gif::speed::Speed;

fn args_with(speed_millis: i64, looping: bool) -> Args {
    Args {
        input: "in.webm".to_string(),
        output: "out.gif".to_string(),
        speed: Speed { millis: speed_millis },
        looping,
    }
}

#[test]
fn thousandths_drop_trailing_zeros() {
    assert_eq!(thousandths_text(10000), "10".to_string());
    assert_eq!(thousandths_text(5000), "5".to_string());
    assert_eq!(thousandths_text(5500), "5.5".to_string());
    assert_eq!(thousandths_text(5550), "5.55".to_string());
    assert_eq!(thousandths_text(5555), "5.555".to_string());
    assert_eq!(thousandths_text(5050), "5.05".to_string());
    assert_eq!(thousandths_text(5005), "5.005".to_string());
}

#[test]
fn filter_expression_for_unit_speed() {
    let s = filter_expr(&Speed { millis: 1000 });
    assert_eq!(
        s,
        "fps=10,scale=640:-1:flags=lanczos,split[s0][s1];[s0]palettegen[p];[s1][p]paletteuse"
            .to_string()
    );
}

#[test]
fn filter_expression_uses_the_derived_rate() {
    let s = filter_expr(&Speed { millis: 800 });
    assert_eq!(
        s,
        "fps=8,scale=640:-1:flags=lanczos,split[s0][s1];[s0]palettegen[p];[s1][p]paletteuse"
            .to_string()
    );
    let fast = filter_expr(&Speed { millis: 9000 });
    assert_eq!(
        fast,
        "fps=30,scale=640:-1:flags=lanczos,split[s0][s1];[s0]palettegen[p];[s1][p]paletteuse"
            .to_string()
    );
}

#[test]
fn loop_flag_picks_the_infinite_loop_value() {
    assert_eq!(loop_arg(true), "0");
    assert_eq!(loop_arg(false), "-1");
}

#[test]
fn argument_list_with_looping() {
    let v = ffmpeg_args(&args_with(2000, true));
    let expect: Vec<String> = vec![
        "-i".to_string(),
        "in.webm".to_string(),
        "-filter_complex".to_string(),
        "fps=20,scale=640:-1:flags=lanczos,split[s0][s1];[s0]palettegen[p];[s1][p]paletteuse"
            .to_string(),
        "-loop".to_string(),
        "0".to_string(),
        "-y".to_string(),
        "out.gif".to_string(),
    ];
    assert_eq!(v, expect);
}

#[test]
fn argument_list_without_looping() {
    let v = ffmpeg_args(&args_with(1000, false));
    assert_eq!(v[4], "-loop".to_string());
    assert_eq!(v[5], "-1".to_string());
    assert_eq!(v[6], "-y".to_string());
}
