//! What to do with stored settings once the file has been looked for and read.
use vstd::prelude::*;

verus! {

/// What looking for and reading a settings file gave.
pub enum ConfigLoad<T> {
    /// There is no such file.
    Missing,
    /// The file is there but does not parse.
    Unparseable,
    /// The file parsed into these settings.
    Parsed(T),
}

/// The settings to run with, and whether to write `default` to the file. A
/// parsed file is used as it is. A missing file gives the defaults, which are
/// then saved for the next run. A file that does not parse gives the defaults
/// and is left alone, so that it can be mended.
pub fn settle_config<T>(load: ConfigLoad<T>, default: T) -> (r: (T, bool))
    ensures
        match load {
            ConfigLoad::Parsed(c) => r.0 == c && !r.1,
            ConfigLoad::Missing => r.0 == default && r.1,
            ConfigLoad::Unparseable => r.0 == default && !r.1,
        },
{
    match load {
        ConfigLoad::Parsed(c) => (c, false),
        ConfigLoad::Missing => (default, true),
        ConfigLoad::Unparseable => (default, false),
    }
}

} // verus!
