//! The run configuration: what to look for, where, and whether case counts.
use std::collections::HashMap;
use vstd::prelude::*;

use crate::search::{reports_matches, search, search_case_insensitive};
use crate::text::lines_of;

verus! {

/// A validated request to search one file for one query.
pub struct Config {
    pub query: String,
    pub file_path: String,
    pub ignore_case: bool,
}

impl Config {
    /// Builds a configuration from the program's arguments: the first (the
    /// program's name) is skipped, the next two are the query and the file
    /// path, and any further ones are ignored. `ignore_case` is passed in by
    /// the caller, which reads it from the environment once at startup.
    pub fn build(args: Vec<String>, ignore_case: bool) -> (r: Result<Config, &'static str>)
        ensures
            args.len() >= 3 <==> r is Ok,
            r matches Ok(c) ==> c.query@ == args[1]@ && c.file_path@ == args[2]@ && c.ignore_case
                == ignore_case,
            args.len() < 2 ==> (r matches Err(e) && e@ == "Didn't get a query string"@),
            args.len() == 2 ==> (r matches Err(e) && e@ == "Didn't get a file path"@),
    {
        if args.len() < 2 {
            return Err("Didn't get a query string");
        }
        let query = args[1].clone();
        if args.len() < 3 {
            return Err("Didn't get a file path");
        }
        let file_path = args[2].clone();
        Ok(Config { query, file_path, ignore_case })
    }

    /// Searches `contents` for this configuration's query, ignoring case when
    /// the configuration asks for it.
    pub fn search_in<'a>(&self, contents: &'a str) -> (r: HashMap<i32, &'a str>)
        requires
            lines_of(contents@).len() <= i32::MAX,
        ensures
            reports_matches(r@, self.query@, contents@, self.ignore_case),
    {
        if self.ignore_case {
            search_case_insensitive(self.query.as_str(), contents)
        } else {
            search(self.query.as_str(), contents)
        }
    }
}

} // verus!
