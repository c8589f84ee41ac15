//! The command line, as a pure function of the arguments and of which of
//! them name an existing path.

use vstd::prelude::*;
use vstd::string::StringExecFns;

verus! {

/// What the command line asks for.
pub struct MainOpt {
    /// Path of the container file; the last argument that names an
    /// existing path.
    pub ucode_path: String,
    /// Directory for extracted payloads; empty when none was given.
    pub extract_dir: String,
}

/// How reading the command line ended.
#[derive(Clone, Copy, Debug, PartialEq, Eq, Structural)]
pub enum CliOutcome {
    /// The arguments name a container: go on.
    Run,
    /// Help was asked for: print the usage and leave with success.
    Help,
    /// `-e` or `--extract` was the last argument: usage, then failure.
    MissingExtractDir,
    /// No argument named an existing container file: usage, then failure.
    MissingContainer,
}

/// The result of reading the command line.
pub struct CliParse {
    pub outcome: CliOutcome,
    /// The options as they stood when reading ended.
    pub opt: MainOpt,
    /// Indices of the arguments that were read as a path and do not
    /// exist, in order; each earns a warning.
    pub unknown: Vec<usize>,
}

/// The mathematical value of a [`CliParse`].
pub struct CliParseView {
    pub outcome: CliOutcome,
    pub ucode_path: Seq<char>,
    pub extract_dir: Seq<char>,
    pub unknown: Seq<usize>,
}

impl View for CliParse {
    type V = CliParseView;

    open spec fn view(&self) -> CliParseView {
        CliParseView {
            outcome: self.outcome,
            ucode_path: self.opt.ucode_path@,
            extract_dir: self.opt.extract_dir@,
            unknown: self.unknown@,
        }
    }
}

/// The arguments as character sequences.
pub open spec fn texts(args: Seq<String>) -> Seq<Seq<char>> {
    Seq::new(args.len(), |i: int| args[i]@)
}

/// Whether the argument is the option that names the output directory.
pub open spec fn is_extract_flag(arg: Seq<char>) -> bool {
    arg == "-e"@ || arg == "--extract"@
}

/// Whether the argument asks for help.
pub open spec fn is_help_flag(arg: Seq<char>) -> bool {
    arg == "-h"@ || arg == "--help"@
}

/// Whether argument `i` is known to name an existing path.
pub open spec fn path_exists(exists: Seq<bool>, i: int) -> bool {
    0 <= i < exists.len() && exists[i]
}

/// Reading the arguments from index `i` on, with `acc` gathered so far.
///
/// The option for the output directory takes the next argument whatever
/// it is; help and a missing directory end the reading at once; any other
/// argument is a path, kept if it exists and reported if not.
pub open spec fn parse_from(
    args: Seq<Seq<char>>,
    exists: Seq<bool>,
    i: int,
    acc: CliParseView,
) -> CliParseView
    decreases args.len() - i,
{
    if i < 0 || i >= args.len() {
        CliParseView {
            outcome: if acc.ucode_path.len() == 0 {
                CliOutcome::MissingContainer
            } else {
                CliOutcome::Run
            },
            ..acc
        }
    } else if is_extract_flag(args[i]) {
        if i + 1 < args.len() {
            parse_from(args, exists, i + 2, CliParseView { extract_dir: args[i + 1], ..acc })
        } else {
            CliParseView { outcome: CliOutcome::MissingExtractDir, ..acc }
        }
    } else if is_help_flag(args[i]) {
        CliParseView { outcome: CliOutcome::Help, ..acc }
    } else if path_exists(exists, i) {
        parse_from(args, exists, i + 1, CliParseView { ucode_path: args[i], ..acc })
    } else {
        parse_from(
            args,
            exists,
            i + 1,
            CliParseView { unknown: acc.unknown.push(i as usize), ..acc },
        )
    }
}

/// The state before any argument has been read.
pub open spec fn nothing_read() -> CliParseView {
    CliParseView {
        outcome: CliOutcome::Run,
        ucode_path: Seq::empty(),
        extract_dir: Seq::empty(),
        unknown: Seq::empty(),
    }
}

fn is_text(arg: &String, text: &str) -> (r: bool)
    ensures
        r == (arg@ == text@),
{
    let other = String::from_str(text);
    arg.eq(&other)
}

impl MainOpt {
    /// Reads the command line. `args[0]` is the program's name and is passed
    /// over; `exists[i]` says whether `args[i]` names an existing path (an
    /// index that `exists` lacks counts as not existing).
    pub fn parse(args: &Vec<String>, exists: &Vec<bool>) -> (r: CliParse)
        ensures
            r@ == parse_from(texts(args@), exists@, 1, nothing_read()),
    {
        let mut ucode_path = String::new();
        let mut extract_dir = String::new();
        let mut unknown: Vec<usize> = Vec::new();
        let mut outcome = CliOutcome::Run;
        let mut i: usize = 1;
        while i < args.len()
            invariant_except_break
                outcome == CliOutcome::Run,
                parse_from(texts(args@), exists@, 1, nothing_read()) == parse_from(
                    texts(args@),
                    exists@,
                    i as int,
                    (CliParseView {
                        outcome: CliOutcome::Run,
                        ucode_path: ucode_path@,
                        extract_dir: extract_dir@,
                        unknown: unknown@,
                    }),
                ),
            ensures
                parse_from(texts(args@), exists@, 1, nothing_read()) == (CliParseView {
                    outcome: if outcome == CliOutcome::Run && ucode_path@.len() == 0 {
                        CliOutcome::MissingContainer
                    } else {
                        outcome
                    },
                    ucode_path: ucode_path@,
                    extract_dir: extract_dir@,
                    unknown: unknown@,
                }),
            decreases args.len() - i,
        {
            let arg = &args[i];
            assert(texts(args@)[i as int] == arg@);
            if is_text(arg, "-e") || is_text(arg, "--extract") {
                if args.len() - i > 1 {
                    assert(texts(args@)[i + 1] == args@[i + 1]@);
                    extract_dir = args[i + 1].clone();
                    i = i + 2;
                } else {
                    outcome = CliOutcome::MissingExtractDir;
                    break ;
                }
            } else if is_text(arg, "-h") || is_text(arg, "--help") {
                outcome = CliOutcome::Help;
                break ;
            } else if i < exists.len() && exists[i] {
                ucode_path = arg.clone();
                i = i + 1;
            } else {
                unknown.push(i);
                i = i + 1;
            }
        }
        if outcome == CliOutcome::Run && ucode_path.as_str().is_empty() {
            outcome = CliOutcome::MissingContainer;
        }
        CliParse { outcome, opt: MainOpt { ucode_path, extract_dir }, unknown }
    }
}

} // verus!
