//! Command-line configuration for the small grep tool: the query string and
//! the file to search, taken from the argument list.

use vstd::prelude::*;

verus! {

/// The parsed command line: what to search for, and where.
pub struct Config {
    pub query: String,
    pub filename: String,
}

impl Config {
    /// Read the configuration out of an argument list: the program name
    /// first, then the query, then the file name.  Fails exactly when fewer
    /// than three arguments are given.
    pub fn build(args: &[String]) -> (r: Result<Config, &'static str>)
        ensures
            args@.len() < 3 ==> (r matches Err(e) && e@ == "Not enough arguments"@),
            args@.len() >= 3 ==> (r matches Ok(c) && c.query@ == args@[1]@ && c.filename@
                == args@[2]@),
    {
        if args.len() < 3 {
            return Err("Not enough arguments");
        }
        Ok(Config { query: args[1].clone(), filename: args[2].clone() })
    }
}

} // verus!
