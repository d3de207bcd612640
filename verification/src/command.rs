//! Construction of the external processor's command line: the filter
//! expression that resamples, scales and palette-optimizes the video, the
//! loop-control argument, and the full argument list.
use crate::cli::Args;
use crate::numfmt::digit_str;
use crate::numfmt::spec_digit_char;
use crate::numfmt::spec_digits;
use crate::numfmt::u128_digits;
use crate::speed::Speed;
use crate::speed::derive_fps;
use crate::speed::spec_fps_millis;
use vstd::prelude::*;
use vstd::string::*;

verus! {

/// The fractional digits of a fixed-point value given in thousandths,
/// with trailing zeros removed; `frac` is the remainder modulo 1000,
/// nonzero.
pub open spec fn spec_frac_text(frac: int) -> Seq<char>
    recommends
        1 <= frac <= 999,
{
    if frac % 100 == 0 {
        seq![spec_digit_char(frac / 100)]
    } else if frac % 10 == 0 {
        seq![spec_digit_char(frac / 100), spec_digit_char((frac / 10) % 10)]
    } else {
        seq![
            spec_digit_char(frac / 100),
            spec_digit_char((frac / 10) % 10),
            spec_digit_char(frac % 10),
        ]
    }
}

/// A value held in thousandths written as a plain decimal: the whole
/// part, then a point and the fractional digits only when they are not
/// all zero.
pub open spec fn spec_thousandths_text(f: int) -> Seq<char>
    recommends
        0 < f,
{
    if f % 1000 == 0 {
        spec_digits((f / 1000) as nat)
    } else {
        spec_digits((f / 1000) as nat) + seq!['.'] + spec_frac_text(f % 1000)
    }
}

/// Writes a value held in thousandths as a plain decimal, the way the
/// external tool expects a frame rate and the summary shows a speed.
pub fn thousandths_text(f: u64) -> (s: String)
    ensures
        s@ == spec_thousandths_text(f as int),
{
    let whole = f / 1000;
    let frac = f % 1000;
    let mut s = u128_digits(whole as u128);
    if frac > 0 {
        proof {
            reveal_strlit(".");
        }
        s.append(".");
        let d1 = frac / 100;
        s.append(digit_str(d1 as u128));
        if frac % 100 > 0 {
            let d2 = (frac / 10) % 10;
            s.append(digit_str(d2 as u128));
            if frac % 10 > 0 {
                let d3 = frac % 10;
                s.append(digit_str(d3 as u128));
            }
        }
        proof {
            assert("."@ =~= seq!['.']);
            assert(s@ =~= spec_thousandths_text(f as int));
        }
    }
    s
}

/// The whole filter expression for a validated speed: frame-rate sampling,
/// a fixed 640-pixel width with automatic height under Lanczos resampling,
/// and the two-branch palette generation and application stages.
pub open spec fn spec_filter_expr(fps: int) -> Seq<char> {
    "fps="@ + spec_thousandths_text(fps)
        + ",scale=640:-1:flags=lanczos,split[s0][s1];[s0]palettegen[p];[s1][p]paletteuse"@
}

pub fn filter_expr(speed: &Speed) -> (s: String)
    requires
        speed.spec_is_positive(),
    ensures
        s@ == spec_filter_expr(spec_fps_millis(speed.millis as int)),
{
    let fps = derive_fps(speed);
    let mut s = String::from_str("fps=");
    let t = thousandths_text(fps);
    s.append(t.as_str());
    s.append(",scale=640:-1:flags=lanczos,split[s0][s1];[s0]palettegen[p];[s1][p]paletteuse");
    proof {
        assert(s@ =~= spec_filter_expr(spec_fps_millis(speed.millis as int)));
    }
    s
}

/// The loop-control value handed to the external tool: zero means repeat
/// forever, minus one means play once.
pub open spec fn spec_loop_arg(looping: bool) -> Seq<char> {
    if looping {
        "0"@
    } else {
        "-1"@
    }
}

pub fn loop_arg(looping: bool) -> (s: &'static str)
    ensures
        s@ == spec_loop_arg(looping),
{
    if looping {
        "0"
    } else {
        "-1"
    }
}

/// The argument list for the external tool, in order: the input file, the
/// filter expression, the loop control, the overwrite flag, and the output
/// file.
pub fn ffmpeg_args(args: &Args) -> (v: Vec<String>)
    requires
        args.speed.spec_is_positive(),
    ensures
        v@.len() == 8,
        v@[0]@ == "-i"@,
        v@[1]@ == args.input@,
        v@[2]@ == "-filter_complex"@,
        v@[3]@ == spec_filter_expr(spec_fps_millis(args.speed.millis as int)),
        v@[4]@ == "-loop"@,
        v@[5]@ == spec_loop_arg(args.looping),
        v@[6]@ == "-y"@,
        v@[7]@ == args.output@,
{
    let mut v: Vec<String> = Vec::new();
    v.push(String::from_str("-i"));
    v.push(args.input.clone());
    v.push(String::from_str("-filter_complex"));
    v.push(filter_expr(&args.speed));
    v.push(String::from_str("-loop"));
    v.push(String::from_str(loop_arg(args.looping)));
    v.push(String::from_str("-y"));
    v.push(args.output.clone());
    v
}

} // verus!
