//! Reading the criteria of a run from command-line words and query fields.

use crate::model::{Config, DateFilter, LaunchingMode};
use vstd::prelude::*;

verus! {

/// What is said when the command line names no archive.
pub const MISSING_FILENAME: &'static str = "Didn't get a query string";

impl Config {
    /// A configuration of the three values as they are given.
    pub fn new(filename: String, site: Option<String>, sender: Option<String>) -> (made: Result<
        Config,
        &'static str,
    >)
        ensures
            made is Ok,
            made->Ok_0.filename == filename,
            made->Ok_0.site == site,
            made->Ok_0.sender == sender,
    {
        Ok(Config { filename, site, sender })
    }

    /// The configuration that the command line asks for. After the program's
    /// name and the launching mode, the third word names the archive and the
    /// fourth, if there is one, the site; `sender` is taken as it is given.
    /// Without a third word there is no configuration.
    pub fn new_cli(args: Vec<String>, sender: Option<String>) -> (made: Result<Config, &'static str>)
        ensures
            made is Err <==> args.len() < 3,
            made is Err ==> made->Err_0@ == MISSING_FILENAME@,
            made is Ok ==> made->Ok_0.filename == args[2],
            made is Ok ==> made->Ok_0.site == (if args.len() > 3 {
                Some(args[3])
            } else {
                None
            }),
            made is Ok ==> made->Ok_0.sender == sender,
    {
        if args.len() < 3 {
            return Err(MISSING_FILENAME);
        }
        let filename = args[2].clone();
        let site = if args.len() > 3 {
            Some(args[3].clone())
        } else {
            None
        };
        Ok(Config { filename, site, sender })
    }
}

/// The launching mode that the second word of a command line names.
pub open spec fn launching_mode_of(args: Seq<Seq<char>>) -> Option<LaunchingMode> {
    if args.len() < 2 {
        None
    } else if args[1] == "server"@ {
        Some(LaunchingMode::Server)
    } else if args[1] == "cli"@ {
        Some(LaunchingMode::Cli)
    } else {
        None
    }
}

/// Reads the launching mode from the command line: `server` or `cli` as the
/// word after the program's name, and nothing else.
pub fn parse_launching_mode(args: &Vec<String>) -> (mode: Option<LaunchingMode>)
    ensures
        mode == launching_mode_of(args.deep_view()),
{
    if args.len() < 2 {
        return None;
    }
    assert(args.deep_view()[1] == args[1]@);
    if args[1] == "server".to_owned() {
        Some(LaunchingMode::Server)
    } else if args[1] == "cli".to_owned() {
        Some(LaunchingMode::Cli)
    } else {
        None
    }
}

impl DateFilter {
    /// At least one field is set.
    pub open spec fn is_set(self) -> bool {
        self.year is Some || self.month is Some || self.day is Some
    }

    /// The filter as a criterion of a run: the filter itself when a field is
    /// set, and no criterion when none is.
    pub fn requested(self) -> (criterion: Option<DateFilter>)
        ensures
            criterion == if self.is_set() {
                Some(self)
            } else {
                None
            },
    {
        if self.year.is_some() || self.month.is_some() || self.day.is_some() {
            Some(self)
        } else {
            None
        }
    }
}

} // verus!
