//! The configuration a search run is given, and the errors that argument
//! parsing can report.
use vstd::prelude::*;
use crate::context::ContextFlag;

verus! {

/// Configuration for one search run: the query, one or two paths (the
/// second may be empty), and the options controlling case folding,
/// context, statistics and recursive traversal.
pub struct Config {
    pub query: String,
    pub file_path_1: String,
    /// can be an empty string or contain the second file name
    pub file_path_2: String,
    pub ignore_case: bool,
    pub context_flag: ContextFlag,
    pub context_count: u8,
    pub show_stats: bool,
    pub recursive: bool,
}

/// Errors that can occur during command-line argument parsing.
#[derive(Debug)]
pub enum ConfigError {
    NotEnoughArguments,
    TooManyArguments,
    InvalidCaseFlag(String),
    InvalidContextFlag(String),
    InvalidContextCount(String),
    InvalidArgument(String),
    NotADirectory(String),
}

/// The message text of a configuration error.
pub open spec fn spec_config_error_message(e: ConfigError) -> Seq<char> {
    match e {
        ConfigError::NotEnoughArguments => "Not enough arguments"@,
        ConfigError::TooManyArguments => "Too many arguments"@,
        ConfigError::InvalidCaseFlag(f) => "Invalid case flag: '"@ + f@ + "'"@,
        ConfigError::InvalidContextFlag(f) => "Invalid context flag: '"@ + f@ + "'"@,
        ConfigError::InvalidContextCount(c) => "Invalid context count: '"@ + c@ + "'"@,
        ConfigError::InvalidArgument(a) => "Invalid argument: '"@ + a@ + "'"@,
        ConfigError::NotADirectory(p) => "Path provided is not a directory: '"@ + p@ + "'"@,
    }
}

impl ConfigError {
    /// The message describing this error, as the search tool prints it.
    pub fn message(&self) -> (r: String)
        ensures
            r@ == spec_config_error_message(*self),
    {
        match self {
            ConfigError::NotEnoughArguments => {
                let r = String::from_str("Not enough arguments");
                r
            },
            ConfigError::TooManyArguments => {
                let r = String::from_str("Too many arguments");
                r
            },
            ConfigError::InvalidCaseFlag(f) => {
                let mut r = String::from_str("Invalid case flag: '");
                r.append(f.as_str());
                r.append("'");
                proof {
                    assert(r@ =~= "Invalid case flag: '"@ + f@ + "'"@);
                }
                r
            },
            ConfigError::InvalidContextFlag(f) => {
                let mut r = String::from_str("Invalid context flag: '");
                r.append(f.as_str());
                r.append("'");
                proof {
                    assert(r@ =~= "Invalid context flag: '"@ + f@ + "'"@);
                }
                r
            },
            ConfigError::InvalidContextCount(c) => {
                let mut r = String::from_str("Invalid context count: '");
                r.append(c.as_str());
                r.append("'");
                proof {
                    assert(r@ =~= "Invalid context count: '"@ + c@ + "'"@);
                }
                r
            },
            ConfigError::InvalidArgument(a) => {
                let mut r = String::from_str("Invalid argument: '");
                r.append(a.as_str());
                r.append("'");
                proof {
                    assert(r@ =~= "Invalid argument: '"@ + a@ + "'"@);
                }
                r
            },
            ConfigError::NotADirectory(p) => {
                let mut r = String::from_str("Path provided is not a directory: '");
                r.append(p.as_str());
                r.append("'");
                proof {
                    assert(r@ =~= "Path provided is not a directory: '"@ + p@ + "'"@);
                }
                r
            },
        }
    }
}

} // verus!
