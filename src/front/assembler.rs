use vstd::prelude::*;

use crate::cli::CliError;

verus! {

/// The assembler's command line: the text to read and the file to write.
pub struct Cli {
    input_path: String,
    output_path: String,
}

impl Cli {
    pub closed spec fn spec_input_path(&self) -> Seq<char> {
        self.input_path@
    }

    pub closed spec fn spec_output_path(&self) -> Seq<char> {
        self.output_path@
    }

    /// Reads `args` (the program name first): exactly an input path and an
    /// output path.
    pub fn new(args: &Vec<String>) -> (r: Result<Cli, CliError>)
        ensures
            args@.len() != 3 ==> r == Err::<Cli, CliError>(CliError::WrongArgumentCount),
            args@.len() == 3 ==> r is Ok && r->Ok_0.spec_input_path() == args@[1]@
                && r->Ok_0.spec_output_path() == args@[2]@,
    {
        if args.len() != 3 {
            return Err(CliError::WrongArgumentCount);
        }
        Ok(Cli { input_path: args[1].clone(), output_path: args[2].clone() })
    }

    pub fn get_input_path(&self) -> (r: &String)
        ensures
            r@ == self.spec_input_path(),
    {
        &self.input_path
    }

    pub fn get_output_path(&self) -> (r: &String)
        ensures
            r@ == self.spec_output_path(),
    {
        &self.output_path
    }
}

} // verus!
