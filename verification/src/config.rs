use vstd::prelude::*;

verus! {

/// The two paths that the configuration file resolves: the interpreter to
/// launch and the script handed to it.
pub struct Config {
    pub python_path: String,
    pub mas_path: String,
}

impl Config {
    /// The configuration that stands in for a missing or malformed file:
    /// both paths empty.
    pub fn empty() -> (c: Config)
        ensures
            c.python_path@ == Seq::<char>::empty(),
            c.mas_path@ == Seq::<char>::empty(),
    {
        Config { python_path: String::new(), mas_path: String::new() }
    }
}

/// A configuration file that could not be parsed is treated as empty, not as
/// a fatal error: the caller hands in the parse result and receives either
/// the parsed configuration or the empty one.
pub fn config_or_empty(parsed: Option<Config>) -> (c: Config)
    ensures
        match parsed {
            Option::Some(p) => c == p,
            Option::None => c.python_path@.len() == 0 && c.mas_path@.len() == 0,
        },
{
    match parsed {
        Option::Some(p) => p,
        Option::None => Config::empty(),
    }
}

} // verus!
