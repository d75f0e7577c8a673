//! Configuration handling: the documented defaults and the tolerant load.
//!
//! The surrounding program reads the settings document from disk and parses
//! it; this module only decides what configuration the rest of the crate
//! works with, so that a missing or corrupt document never stops anything.

use vstd::prelude::*;
use crate::models::Config;

verus! {

impl Default for Config {
    /// Fresh-install settings: empty paths and the shortest standard interval.
    fn default() -> (r: Config)
        ensures
            r@.cesta_archiv.len() == 0,
            r@.cesta_vyroba.len() == 0,
            r@.interval_synchronizace == "1 week"@,
    {
        Config {
            cesta_archiv: String::new(),
            cesta_vyroba: String::new(),
            interval_synchronizace: String::from_str("1 week"),
        }
    }
}

/// The configuration the crate runs with: the parsed settings document when
/// there was a readable one, the documented defaults otherwise.
pub fn nacti(nactene: Option<Config>) -> (r: Config)
    ensures
        nactene matches Some(c) ==> r == c,
        nactene is None ==> r@.cesta_archiv.len() == 0 && r@.cesta_vyroba.len() == 0
            && r@.interval_synchronizace == "1 week"@,
{
    match nactene {
        Some(c) => c,
        None => Config::default(),
    }
}

} // verus!
