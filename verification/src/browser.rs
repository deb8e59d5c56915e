//! Where browsers are looked for, and the arguments a browser is opened with.

use vstd::prelude::*;
use vstd::string::*;

verus! {

/// Homebrew's prefix when `HOMEBREW_PREFIX` is not set.
pub const DEFAULT_HOMEBREW_PREFIX: &'static str = "/opt/homebrew";

/// The directory that holds macOS applications.
pub const APPLICATIONS_DIR: &'static str = "/Applications";

/// The directories searched for browsers: Homebrew's prefix (the one given,
/// else `/opt/homebrew`), then `/Applications`.
pub fn browser_search_dirs(homebrew_prefix: Option<&str>) -> (r: Vec<String>)
    ensures
        r@.len() == 2,
        r@[0]@ == (match homebrew_prefix {
            Some(p) => p@,
            None => DEFAULT_HOMEBREW_PREFIX@,
        }),
        r@[1]@ == APPLICATIONS_DIR@,
{
    let prefix = match homebrew_prefix {
        Some(p) => p.to_owned(),
        None => DEFAULT_HOMEBREW_PREFIX.to_owned(),
    };
    let mut dirs: Vec<String> = Vec::new();
    dirs.push(prefix);
    dirs.push(APPLICATIONS_DIR.to_owned());
    dirs
}

/// The arguments a browser is opened with: `--url <url>`, after `--new-tab`
/// when each URL goes to a new tab.
pub fn browser_open_args(new_tab: bool, url: &str) -> (r: Vec<String>)
    ensures
        new_tab ==> r@.len() == 3 && r@[0]@ == "--new-tab"@ && r@[1]@ == "--url"@ && r@[2]@ == url@,
        !new_tab ==> r@.len() == 2 && r@[0]@ == "--url"@ && r@[1]@ == url@,
{
    let mut args: Vec<String> = Vec::new();
    if new_tab {
        args.push("--new-tab".to_owned());
    }
    args.push("--url".to_owned());
    args.push(url.to_owned());
    args
}

} // verus!
