//! The command surface: a single positional argument giving the file path.

use vstd::prelude::*;

verus! {

/// What the command line asks for: the path of the file to scan.
#[derive(Debug)]
pub struct Config {
    pub path: String,
}

impl Config {
    /// Parses the argument vector, the program name first. Fails exactly
    /// when there is no argument after the program name; otherwise the
    /// first such argument is the path.
    pub fn new(args: &Vec<String>) -> (r: Result<Config, &'static str>)
        ensures
            r is Err <==> args@.len() < 2,
            r is Err ==> r->Err_0@ == "Not enough arguments"@,
            r is Ok ==> r->Ok_0.path@ == args@[1]@,
    {
        if args.len() < 2 {
            return Err("Not enough arguments");
        }
        let path = args[1].clone();
        Ok(Config { path })
    }
}

} // verus!
