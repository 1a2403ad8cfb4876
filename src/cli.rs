use vstd::prelude::*;
use vstd::utf8::encode_utf8_decode_utf8;

use crate::parser::bytes_equal;

verus! {

/// Why a command line is refused.
#[derive(Clone, Copy, Debug, PartialEq, Eq, Structural)]
pub enum CliError {
    /// The tool takes a fixed number of arguments and got another.
    WrongArgumentCount,
    /// No mode was given.
    MissingMode,
    /// No path was given.
    MissingPath,
    /// The mode is neither `compile` nor `run`.
    UnknownMode,
}

#[derive(Clone, Copy, Debug, PartialEq, Eq, Structural)]
pub enum CliMode {
    Compile,
    Run,
}

/// The mode that a word names, if any.
pub open spec fn mode_of(s: Seq<char>) -> Option<CliMode> {
    if s == "compile"@ {
        Some(CliMode::Compile)
    } else if s == "run"@ {
        Some(CliMode::Run)
    } else {
        None
    }
}

/// Whether two texts are the same.
pub(crate) fn text_is(s: &str, w: &str) -> (r: bool)
    ensures
        r == (s@ == w@),
{
    proof {
        encode_utf8_decode_utf8(s@);
        encode_utf8_decode_utf8(w@);
    }
    bytes_equal(s.as_bytes(), w.as_bytes())
}

/// The command line of the combined tool: a mode and a path.
pub struct Cli {
    mode: CliMode,
    path: String,
}

impl Cli {
    pub closed spec fn spec_mode(&self) -> CliMode {
        self.mode
    }

    pub closed spec fn spec_path(&self) -> Seq<char> {
        self.path@
    }

    /// Reads `args` (the program name first): a mode, `compile` or `run`,
    /// then a path.
    pub fn new(args: &Vec<String>) -> (r: Result<Cli, CliError>)
        ensures
            args@.len() < 2 ==> r == Err::<Cli, CliError>(CliError::MissingMode),
            args@.len() == 2 ==> r == Err::<Cli, CliError>(CliError::MissingPath),
            args@.len() > 2 ==> match mode_of(args@[1]@) {
                None => r == Err::<Cli, CliError>(CliError::UnknownMode),
                Some(m) => r is Ok && r->Ok_0.spec_mode() == m && r->Ok_0.spec_path()
                    == args@[2]@,
            },
    {
        if args.len() < 2 {
            return Err(CliError::MissingMode);
        }
        if args.len() < 3 {
            return Err(CliError::MissingPath);
        }
        let mode_str = args[1].as_str();
        let mode = if text_is(mode_str, "compile") {
            CliMode::Compile
        } else if text_is(mode_str, "run") {
            CliMode::Run
        } else {
            return Err(CliError::UnknownMode);
        };
        Ok(Cli { mode, path: args[2].clone() })
    }

    pub fn get_mode(&self) -> (r: &CliMode)
        ensures
            *r == self.spec_mode(),
    {
        &self.mode
    }

    pub fn get_path(&self) -> (r: &String)
        ensures
            r@ == self.spec_path(),
    {
        &self.path
    }
}

} // verus!
