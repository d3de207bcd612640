//! The conversion pipeline's decisions: locating the external processor,
//! validating an invocation, judging the subprocess outcome, and the size
//! report printed after a successful run.
use crate::cli::Args;
use crate::numfmt::digit_str;
use crate::numfmt::spec_digit_char;
use crate::numfmt::spec_digits;
use crate::numfmt::u128_digits;
use vstd::prelude::*;
use vstd::string::*;

verus! {

/// What can go wrong before, during or after the external run.
pub enum ConvertError {
    /// The external processor is not on the executable search path.
    MissingFfmpeg,
    /// The input file is not on disk; holds the path as given.
    MissingInput(String),
    /// The speed multiplier is not strictly positive.
    InvalidSpeed,
    /// The processor exited with a failure; holds its diagnostic stream.
    FfmpegFailed(String),
}

impl ConvertError {
    pub open spec fn spec_message(&self) -> Seq<char> {
        match self {
            ConvertError::MissingFfmpeg => {
                "ffmpeg not found in PATH. Please install ffmpeg to use this tool."@
            },
            ConvertError::MissingInput(p) => "Input file does not exist: "@ + p@,
            ConvertError::InvalidSpeed => "Speed must be greater than 0"@,
            ConvertError::FfmpegFailed(stderr) => "ffmpeg failed with error:\n"@ + stderr@,
        }
    }

    /// The human-readable account of the error.
    pub fn message(&self) -> (s: String)
        ensures
            s@ == self.spec_message(),
    {
        match self {
            ConvertError::MissingFfmpeg => {
                String::from_str("ffmpeg not found in PATH. Please install ffmpeg to use this tool.")
            },
            ConvertError::MissingInput(p) => {
                let mut s = String::from_str("Input file does not exist: ");
                s.append(p.as_str());
                s
            },
            ConvertError::InvalidSpeed => String::from_str("Speed must be greater than 0"),
            ConvertError::FfmpegFailed(stderr) => {
                let mut s = String::from_str("ffmpeg failed with error:\n");
                s.append(stderr.as_str());
                s
            },
        }
    }
}

/// Relies on which::which of the `which` crate: searches the system's
/// executable search path for a name. What it finds depends on the machine
/// and the environment of the moment, so nothing is promised of the
/// outcome.
#[verifier::external_body]
fn find_in_path(name: &str) -> (r: Option<String>) {
    match which::which(name) {
        Ok(p) => Some(p.to_string_lossy().into_owned()),
        Err(_) => None,
    }
}

/// A handle on the located external processor.
pub struct VideoConverter {
    pub ffmpeg_path: String,
}

impl VideoConverter {
    /// Turns the result of the executable lookup into a converter:
    /// a converter holding the found path exactly when the lookup
    /// found one.
    pub fn from_lookup(lookup: Option<String>) -> (r: Result<VideoConverter, ConvertError>)
        ensures
            (match r {
                Ok(c) => lookup is Some && c.ffmpeg_path@ == lookup.unwrap()@,
                Err(e) => lookup is None && e == ConvertError::MissingFfmpeg,
            }),
    {
        match lookup {
            Some(p) => Ok(VideoConverter { ffmpeg_path: p }),
            None => Err(ConvertError::MissingFfmpeg),
        }
    }

    /// Looks the external processor up on the executable search path.
    /// Whether it is found depends on the environment; a failure is always
    /// the missing-processor error.
    pub fn new() -> (r: Result<VideoConverter, ConvertError>)
        ensures
            (match r {
                Ok(_) => true,
                Err(e) => e == ConvertError::MissingFfmpeg,
            }),
    {
        Self::from_lookup(find_in_path("ffmpeg"))
    }
}

/// Validates an invocation before anything is spawned: the input file must
/// be on disk and the speed must be strictly positive, checked in that
/// order.
pub fn validate(args: &Args, input_exists: bool) -> (r: Result<(), ConvertError>)
    ensures
        r is Ok <==> (input_exists && args.speed.spec_is_positive()),
        (match r {
            Ok(_) => true,
            Err(ConvertError::MissingInput(p)) => !input_exists && p@ == args.input@,
            Err(ConvertError::InvalidSpeed) => input_exists && !args.speed.spec_is_positive(),
            Err(_) => false,
        }),
{
    if !input_exists {
        return Err(ConvertError::MissingInput(args.input.clone()));
    }
    if !args.speed.is_positive() {
        return Err(ConvertError::InvalidSpeed);
    }
    Ok(())
}

/// Judges the external processor's exit: success passes, anything else
/// becomes the failure error carrying the diagnostic stream verbatim.
pub fn subprocess_result(success: bool, stderr: String) -> (r: Result<(), ConvertError>)
    ensures
        r is Ok <==> success,
        (match r {
            Ok(_) => success,
            Err(ConvertError::FfmpegFailed(s)) => !success && s@ == stderr@,
            Err(_) => false,
        }),
{
    if success {
        Ok(())
    } else {
        Err(ConvertError::FfmpegFailed(stderr))
    }
}

/// Division rounded to the nearest integer, halves away from zero.
pub open spec fn spec_round_div(n: int, d: int) -> int
    recommends
        d > 0,
{
    if n >= 0 {
        (2 * n + d) / (2 * d)
    } else {
        -((2 * (-n) + d) / (2 * d))
    }
}

/// The size reduction in tenths of a percent: `(1 - output/input) * 100`,
/// carried to one decimal digit; negative when the output grew.
pub open spec fn spec_compression_tenths(input: int, output: int) -> int
    recommends
        input > 0,
{
    spec_round_div((input - output) * 1000, input)
}

/// What the tool reports after a successful run: both sizes in whole
/// kilobytes, and the size reduction in tenths of a percent.
pub struct SizeReport {
    pub input_kb: u64,
    pub output_kb: u64,
    pub compression_tenths: i128,
}

/// Builds the report from the two byte sizes read after the run.
pub fn size_report(input_size: u64, output_size: u64) -> (r: SizeReport)
    requires
        input_size > 0,
    ensures
        r.input_kb == input_size / 1024,
        r.output_kb == output_size / 1024,
        r.compression_tenths as int == spec_compression_tenths(
            input_size as int,
            output_size as int,
        ),
{
    let input_kb = input_size / 1024;
    let output_kb = output_size / 1024;
    let i = input_size as u128;
    let t: i128 = if output_size <= input_size {
        let diff = (input_size - output_size) as u128;
        let num = 2 * (diff * 1000) + i;
        (num / (2 * i)) as i128
    } else {
        let diff = (output_size - input_size) as u128;
        let num = 2 * (diff * 1000) + i;
        -((num / (2 * i)) as i128)
    };
    SizeReport { input_kb, output_kb, compression_tenths: t }
}

/// The report's percentage as printed: an optional minus sign, the whole
/// percent digits, a point, and the single tenths digit.
pub open spec fn spec_compression_text(t: int) -> Seq<char> {
    let mag = if t < 0 {
        -t
    } else {
        t
    };
    (if t < 0 {
        seq!['-']
    } else {
        Seq::<char>::empty()
    }) + spec_digits((mag / 10) as nat) + seq!['.'] + seq![spec_digit_char(mag % 10)]
}

/// Writes a tenths-of-a-percent value with one decimal digit.
pub fn compression_text(t: i128) -> (s: String)
    requires
        t > i128::MIN,
    ensures
        s@ == spec_compression_text(t as int),
{
    let neg = t < 0;
    let mag: u128 = if neg {
        (-t) as u128
    } else {
        t as u128
    };
    let mut s = if neg {
        String::from_str("-")
    } else {
        String::new()
    };
    let whole = u128_digits(mag / 10);
    s.append(whole.as_str());
    s.append(".");
    s.append(digit_str(mag % 10));
    proof {
        reveal_strlit("-");
        reveal_strlit(".");
        assert("-"@ =~= seq!['-']);
        assert("."@ =~= seq!['.']);
        assert(s@ =~= spec_compression_text(t as int));
    }
    s
}

} // verus!
