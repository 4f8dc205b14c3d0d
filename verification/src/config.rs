//! Application settings: the `[Upbit]` table of `config.toml`, and how a key
//! from the command line and one from the file combine.

use vstd::prelude::*;

use crate::text::is_blank;

verus! {

/// The whole settings file.
#[derive(Debug)]
pub struct AppConfig {
    pub upbit: Option<UpbitSection>,
}

/// The `[Upbit]` table.
#[derive(Debug)]
pub struct UpbitSection {
    pub access_key: Option<String>,
    pub secret_key: Option<String>,
}

impl Default for AppConfig {
    /// No `[Upbit]` table.
    fn default() -> (res: Self)
        ensures
            res.upbit is None,
    {
        AppConfig { upbit: None }
    }
}

impl Default for UpbitSection {
    /// No keys.
    fn default() -> (res: Self)
        ensures
            res.access_key is None && res.secret_key is None,
    {
        UpbitSection { access_key: None, secret_key: None }
    }
}

/// The key that the command line and the file give together: the command line's
/// when it gives one, else the file's; none when that one is blank.
pub open spec fn merged_key(cli: Option<String>, file: Option<String>) -> Option<String> {
    let chosen = if cli is Some {
        cli
    } else {
        file
    };
    match chosen {
        Some(s) => if crate::text::blank(s@) {
            None
        } else {
            Some(s)
        },
        None => None,
    }
}

/// Combines a key from the command line and one from the settings file: the
/// command line wins; a blank key counts as none.
pub fn merge_key(cli: Option<String>, file: Option<String>) -> (res: Option<String>)
    ensures
        res == merged_key(cli, file),
{
    let chosen = match cli {
        Some(s) => Some(s),
        None => file,
    };
    match chosen {
        Some(s) => {
            if is_blank(s.as_str()) {
                None
            } else {
                Some(s)
            }
        },
        None => None,
    }
}

} // verus!
