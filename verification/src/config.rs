//! The run configuration: which count to perform and where the input comes
//! from, built from the process argument list.

use vstd::prelude::*;

verus! {

/// The counting operation selected for a run.
#[derive(Clone, Copy, Debug, PartialEq, Eq, Structural)]
pub enum CountType {
    Bytes,
    Words,
    Lines,
    Characters,
}

/// A validated run configuration: an optional input path (absent means
/// standard input) and an optional count mode (absent means the default
/// triple count of lines, words and bytes).
#[derive(Debug)]
pub struct Config {
    pub file_path: Option<String>,
    pub count_type: Option<CountType>,
}

/// The count mode selected by a flag argument, or `None` when the argument is
/// not a recognized flag.
pub open spec fn flag_mode(a: Seq<char>) -> Option<CountType> {
    if a == "-c"@ {
        Some(CountType::Bytes)
    } else if a == "-l"@ {
        Some(CountType::Lines)
    } else if a == "-w"@ {
        Some(CountType::Words)
    } else if a == "-m"@ {
        Some(CountType::Characters)
    } else {
        None
    }
}

/// What `Config::from_arguments` owes for a given argument list: the first
/// argument is the program name and is discarded; then one flag selects a
/// mode, one bare argument names the input path, and every other shape fails.
pub open spec fn arguments_outcome(args: Seq<Seq<char>>, r: Result<Config, &'static str>) -> bool {
    if args.len() == 2 {
        if flag_mode(args[1]) is Some {
            r matches Ok(c) && c.count_type == flag_mode(args[1]) && c.file_path is None
        } else {
            r matches Ok(c) && c.count_type is None && (c.file_path matches Some(p) && p@
                == args[1])
        }
    } else if args.len() == 3 {
        if flag_mode(args[1]) is Some {
            r matches Ok(c) && c.count_type == flag_mode(args[1]) && (c.file_path matches Some(p)
                && p@ == args[2])
        } else {
            r matches Err(m) && m@ == "Invalid flag"@
        }
    } else {
        r matches Err(m) && m@ == "Invalid arguments"@
    }
}

impl Config {
    /// Builds the configuration from the raw argument list, program name
    /// first; rejects every shape other than `[flag] [path]`, `[flag]` and
    /// `[path]`.
    pub fn from_arguments(args: Vec<String>) -> (r: Result<Config, &'static str>)
        ensures
            arguments_outcome(args.deep_view(), r),
    {
        if args.len() == 2 {
            let mode = match_flag(&args[1]);
            if mode.is_some() {
                Ok(
                    Config {
                        file_path: None,
                        count_type: mode,
                    },
                )
            } else {
                Ok(
                    Config {
                        file_path: Some(args[1].clone()),
                        count_type: None,
                    },
                )
            }
        } else if args.len() == 3 {
            let mode = match_flag(&args[1]);
            if mode.is_some() {
                Ok(
                    Config {
                        file_path: Some(args[2].clone()),
                        count_type: mode,
                    },
                )
            } else {
                Err("Invalid flag")
            }
        } else {
            Err("Invalid arguments")
        }
    }
}

/// The count mode selected by one argument, `None` when it is no flag.
fn match_flag(arg: &String) -> (r: Option<CountType>)
    ensures
        r == flag_mode(arg@),
{
    let flag_bytes: String = "-c".to_owned();
    let flag_lines: String = "-l".to_owned();
    let flag_words: String = "-w".to_owned();
    let flag_chars: String = "-m".to_owned();
    if *arg == flag_bytes {
        Some(CountType::Bytes)
    } else if *arg == flag_lines {
        Some(CountType::Lines)
    } else if *arg == flag_words {
        Some(CountType::Words)
    } else if *arg == flag_chars {
        Some(CountType::Characters)
    } else {
        None
    }
}

} // verus!
