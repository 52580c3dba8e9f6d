//! What one run is asked to do, and the run itself on a loaded text.

use crate::search::{exact_matches, folded_matches, search, search_case_insensitive};
use vstd::prelude::*;

verus! {

/// The request of one run: what to look for, where, and how.
pub struct Config {
    pub query: String,
    pub filename: String,
    pub case_sensitive: bool,
}

/// The message for an argument list without a query.
pub open spec fn missing_query_message() -> Seq<char> {
    "Did not get a query string"@
}

/// The message for an argument list without a filename.
pub open spec fn missing_filename_message() -> Seq<char> {
    "Did not get a filename string"@
}

/// The lines that a run selects from `content`: the exact matches where
/// `case_sensitive` holds, the folded matches where it does not.
pub open spec fn selected_lines(
    query: Seq<char>,
    content: Seq<char>,
    case_sensitive: bool,
) -> Seq<Seq<char>> {
    if case_sensitive {
        exact_matches(query, content)
    } else {
        folded_matches(query, content)
    }
}

impl Config {
    /// Reads the request from the argument list of the process and from the
    /// presence of the case-insensitivity toggle in its environment.
    ///
    /// The first argument is the program's name and is passed over; the
    /// second is the query and the third the filename; further arguments are
    /// ignored. A missing query is reported before a missing filename. The
    /// search is case-sensitive exactly where the toggle is absent.
    pub fn new(args: Vec<String>, case_insensitive: bool) -> (made: Result<Config, &'static str>)
        ensures
            args@.len() < 2 ==> (made matches Err(message) && message@
                == missing_query_message()),
            args@.len() == 2 ==> (made matches Err(message) && message@
                == missing_filename_message()),
            args@.len() >= 3 ==> (made matches Ok(config) && config.query@ == args@[1]@
                && config.filename@ == args@[2]@ && config.case_sensitive == !case_insensitive),
    {
        if args.len() < 2 {
            return Err("Did not get a query string");
        }
        if args.len() < 3 {
            return Err("Did not get a filename string");
        }
        let query = args[1].clone();
        let filename = args[2].clone();
        Ok(Config { query, filename, case_sensitive: !case_insensitive })
    }
}

/// The lines of `content` that the request selects, in the order of
/// `content`: what a run prints, one line each.
pub fn run<'a>(config: &Config, content: &'a str) -> (out: Vec<&'a str>)
    ensures
        out.deep_view() == selected_lines(config.query@, content@, config.case_sensitive),
{
    if config.case_sensitive {
        search(config.query.as_str(), content)
    } else {
        search_case_insensitive(config.query.as_str(), content)
    }
}

} // verus!
