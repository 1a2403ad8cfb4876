use vstd::prelude::*;

use crate::cli::CliError;

verus! {

/// The runner's command line: the program file to run.
pub struct Cli {
    path: String,
}

impl Cli {
    pub closed spec fn spec_path(&self) -> Seq<char> {
        self.path@
    }

    /// Reads `args` (the program name first): the path comes first.
    pub fn new(args: &Vec<String>) -> (r: Result<Cli, CliError>)
        ensures
            args@.len() < 2 ==> r == Err::<Cli, CliError>(CliError::MissingPath),
            args@.len() >= 2 ==> r is Ok && r->Ok_0.spec_path() == args@[1]@,
    {
        if args.len() < 2 {
            return Err(CliError::MissingPath);
        }
        Ok(Cli { path: args[1].clone() })
    }

    pub fn get_path(&self) -> (r: &String)
        ensures
            r@ == self.spec_path(),
    {
        &self.path
    }
}

} // verus!
