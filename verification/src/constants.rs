//! Application-wide names and the resource path helper.

use vstd::prelude::*;

verus! {

/// Application id registered with the session bus.
pub const APP_ID: &'static str = "io.github.lost-melody.NeoDock";

/// Human readable application domain.
pub const APP_DOMAIN: &'static str = "NeoDock";

/// Domain used for log messages.
pub const LOG_DOMAIN: &'static str = "NeoDock";

/// Gettext text domain.
pub const TEXT_DOMAIN: &'static str = "neodock";

/// Prefix of every bundled resource.
pub const RESOURCES: &'static str = "/io/github/lost-melody/NeoDock/";

/// The full resource path of `path`: the resource prefix followed by `path`.
pub fn resource_path(path: &str) -> (res: String)
    ensures
        res@ == RESOURCES@ + path@,
{
    let mut res = String::from_str(RESOURCES);
    res.append(path);
    res
}

} // verus!
