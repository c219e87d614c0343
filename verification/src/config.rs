//! The program's settings: SauceNAO API key, source delimiter and
//! linx-server URL, taken from the command line or from `config.json`.

use vstd::prelude::*;
use vstd::string::*;
use crate::text::str_is_empty;

verus! {

/// The settings the program runs with.
pub struct Config {
    pub api_key: String,
    pub delim: String,
    pub linx_url: Option<String>,
}

/// The delimiter put between two sources when none is given: ` | `.
pub fn default_delimiter() -> (d: String)
    ensures
        d@ == " | "@,
{
    String::from_str(" | ")
}

impl Config {
    /// The settings given on the command line. They are used when an API key
    /// is given there (`None` otherwise: the settings then come from
    /// `config.json`); an empty delimiter stands for the default one.
    pub fn from_cli(api_key: &str, delim: &str, linx_url: Option<String>) -> (r: Option<Config>)
        ensures
            api_key@.len() == 0 ==> r is None,
            api_key@.len() > 0 ==> (r matches Some(c) && c.api_key@ == api_key@
                && c.delim@ == (if delim@.len() == 0 { " | "@ } else { delim@ })
                && c.linx_url == linx_url),
    {
        if str_is_empty(api_key) {
            return None;
        }
        let delim = if str_is_empty(delim) {
            default_delimiter()
        } else {
            String::from_str(delim)
        };
        Some(Config { api_key: String::from_str(api_key), delim, linx_url })
    }
}

} // verus!
