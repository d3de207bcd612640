//! Command-line argument parsing.
//!
//! The grammar is small: `--input`/`-i` and `--output`/`-o` take a path and
//! are required, `--speed`/`-s` takes a decimal literal and defaults to one,
//! and `--loop` is a bare flag. The first token is the program name. An
//! option may not be given twice, a missing value or an unknown token is an
//! error, and a speed token that is not a decimal literal is an error.
use crate::speed::Speed;
use crate::speed::parse_speed;
use crate::speed::spec_speed_millis_of;
use crate::strutil::str_eq;
use vstd::prelude::*;
use vstd::string::*;

verus! {

/// The invocation parameters of one run.
#[derive(Debug)]
pub struct Args {
    pub input: String,
    pub output: String,
    pub speed: Speed,
    pub looping: bool,
}

#[derive(PartialEq, Eq, Structural, Clone, Copy, Debug)]
pub enum CliError {
    UnknownArgument,
    MissingValue,
    DuplicateArgument,
    BadSpeed,
    MissingInput,
    MissingOutput,
}

impl CliError {
    pub open spec fn spec_message(&self) -> Seq<char> {
        match self {
            CliError::UnknownArgument => "unrecognized argument"@,
            CliError::MissingValue => "an option is missing its value"@,
            CliError::DuplicateArgument => "an option was given more than once"@,
            CliError::BadSpeed => "the speed is not a decimal number"@,
            CliError::MissingInput => "the required --input option is missing"@,
            CliError::MissingOutput => "the required --output option is missing"@,
        }
    }

    /// The human-readable account of the error.
    pub fn message(&self) -> (s: String)
        ensures
            s@ == self.spec_message(),
    {
        match self {
            CliError::UnknownArgument => String::from_str("unrecognized argument"),
            CliError::MissingValue => String::from_str("an option is missing its value"),
            CliError::DuplicateArgument => String::from_str("an option was given more than once"),
            CliError::BadSpeed => String::from_str("the speed is not a decimal number"),
            CliError::MissingInput => String::from_str("the required --input option is missing"),
            CliError::MissingOutput => String::from_str("the required --output option is missing"),
        }
    }
}

/// One step per option: folds the tokens after the program name over a
/// partial state of (input, output, speed in thousandths, loop flag).
pub open spec fn spec_parse_tokens(
    toks: Seq<Seq<char>>,
    st: (Option<Seq<char>>, Option<Seq<char>>, Option<int>, bool),
) -> Result<(Option<Seq<char>>, Option<Seq<char>>, Option<int>, bool), CliError>
    decreases toks.len(),
{
    if toks.len() == 0 {
        Ok(st)
    } else {
        let t = toks[0];
        if t == "--input"@ || t == "-i"@ {
            if st.0 is Some {
                Err(CliError::DuplicateArgument)
            } else if toks.len() == 1 {
                Err(CliError::MissingValue)
            } else {
                spec_parse_tokens(toks.skip(2), (Some(toks[1]), st.1, st.2, st.3))
            }
        } else if t == "--output"@ || t == "-o"@ {
            if st.1 is Some {
                Err(CliError::DuplicateArgument)
            } else if toks.len() == 1 {
                Err(CliError::MissingValue)
            } else {
                spec_parse_tokens(toks.skip(2), (st.0, Some(toks[1]), st.2, st.3))
            }
        } else if t == "--speed"@ || t == "-s"@ {
            if st.2 is Some {
                Err(CliError::DuplicateArgument)
            } else if toks.len() == 1 {
                Err(CliError::MissingValue)
            } else {
                match spec_speed_millis_of(toks[1]) {
                    Some(v) => spec_parse_tokens(toks.skip(2), (st.0, st.1, Some(v), st.3)),
                    None => Err(CliError::BadSpeed),
                }
            }
        } else if t == "--loop"@ {
            if st.3 {
                Err(CliError::DuplicateArgument)
            } else {
                spec_parse_tokens(toks.skip(1), (st.0, st.1, st.2, true))
            }
        } else {
            Err(CliError::UnknownArgument)
        }
    }
}

/// What a whole argument vector means: both paths are required, the speed
/// defaults to `1.0` (a thousand thousandths) and looping defaults to off.
pub open spec fn spec_parse_args(argv: Seq<Seq<char>>) -> Result<
    (Seq<char>, Seq<char>, int, bool),
    CliError,
> {
    if argv.len() == 0 {
        Err(CliError::MissingInput)
    } else {
        match spec_parse_tokens(argv.drop_first(), (None, None, None, false)) {
            Ok(st) => {
                if st.0 is None {
                    Err(CliError::MissingInput)
                } else if st.1 is None {
                    Err(CliError::MissingOutput)
                } else {
                    Ok(
                        (
                            st.0.unwrap(),
                            st.1.unwrap(),
                            if st.2 is Some {
                                st.2.unwrap()
                            } else {
                                1000
                            },
                            st.3,
                        ),
                    )
                }
            },
            Err(e) => Err(e),
        }
    }
}

spec fn view_state(
    input: Option<String>,
    output: Option<String>,
    speed: Option<Speed>,
    looping: bool,
) -> (Option<Seq<char>>, Option<Seq<char>>, Option<int>, bool) {
    (
        match input {
            Some(s) => Some(s@),
            None => None,
        },
        match output {
            Some(s) => Some(s@),
            None => None,
        },
        match speed {
            Some(sp) => Some(sp.millis as int),
            None => None,
        },
        looping,
    )
}

/// Parses an argument vector, program name first.
pub fn parse_args(argv: &Vec<String>) -> (r: Result<Args, CliError>)
    ensures
        (match r {
            Ok(a) => spec_parse_args(argv@.map_values(|s: String| s@)) == Ok::<
                (Seq<char>, Seq<char>, int, bool),
                CliError,
            >((a.input@, a.output@, a.speed.millis as int, a.looping)),
            Err(e) => spec_parse_args(argv@.map_values(|s: String| s@)) == Err::<
                (Seq<char>, Seq<char>, int, bool),
                CliError,
            >(e),
        }),
{
    let ghost toks = argv@.map_values(|s: String| s@);
    let n = argv.len();
    if n == 0 {
        return Err(CliError::MissingInput);
    }
    let mut input: Option<String> = None;
    let mut output: Option<String> = None;
    let mut speed: Option<Speed> = None;
    let mut looping: bool = false;
    let mut i: usize = 1;
    while i < n
        invariant
            toks == argv@.map_values(|s: String| s@),
            n == argv@.len(),
            1 <= i <= n,
            spec_parse_tokens(toks.drop_first(), (None, None, None, false)) == spec_parse_tokens(
                toks.skip(i as int),
                view_state(input, output, speed, looping),
            ),
        decreases n - i,
    {
        proof {
            assert(toks.skip(i as int).len() == n - i);
            assert(toks.skip(i as int)[0] == toks[i as int]);
            assert(toks[i as int] == argv@[i as int]@);
            if i + 1 < n {
                assert(toks.skip(i as int)[1] == toks[i as int + 1]);
                assert(toks[i as int + 1] == argv@[i as int + 1]@);
            }
            if i + 2 <= n {
                assert(toks.skip(i as int).skip(2) =~= toks.skip(i as int + 2));
            }
            assert(toks.skip(i as int).skip(1) =~= toks.skip(i as int + 1));
        }
        let t: &String = &argv[i];
        if str_eq(t.as_str(), "--input") || str_eq(t.as_str(), "-i") {
            if input.is_some() {
                return Err(CliError::DuplicateArgument);
            }
            if i + 1 >= n {
                return Err(CliError::MissingValue);
            }
            input = Some(argv[i + 1].clone());
            i = i + 2;
        } else if str_eq(t.as_str(), "--output") || str_eq(t.as_str(), "-o") {
            if output.is_some() {
                return Err(CliError::DuplicateArgument);
            }
            if i + 1 >= n {
                return Err(CliError::MissingValue);
            }
            output = Some(argv[i + 1].clone());
            i = i + 2;
        } else if str_eq(t.as_str(), "--speed") || str_eq(t.as_str(), "-s") {
            if speed.is_some() {
                return Err(CliError::DuplicateArgument);
            }
            if i + 1 >= n {
                return Err(CliError::MissingValue);
            }
            match parse_speed(argv[i + 1].as_str()) {
                Some(sp) => {
                    speed = Some(sp);
                    i = i + 2;
                },
                None => {
                    return Err(CliError::BadSpeed);
                },
            }
        } else if str_eq(t.as_str(), "--loop") {
            if looping {
                return Err(CliError::DuplicateArgument);
            }
            looping = true;
            i = i + 1;
        } else {
            return Err(CliError::UnknownArgument);
        }
    }
    proof {
        assert(toks.skip(n as int).len() == 0);
    }
    let inp = match input {
        Some(s) => s,
        None => {
            return Err(CliError::MissingInput);
        },
    };
    let out = match output {
        Some(s) => s,
        None => {
            return Err(CliError::MissingOutput);
        },
    };
    let sp = match speed {
        Some(s) => s,
        None => Speed { millis: 1000 },
    };
    Ok(Args { input: inp, output: out, speed: sp, looping })
}

} // verus!
