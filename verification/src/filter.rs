//! The application-window filter shared by every backend: a window
//! belongs to the target application when its title begins with the
//! application's marker prefix and does not contain the excluded
//! launcher substring; the prefix is stripped from the stored title.

use crate::text::{contains_seq, contains_str, has_prefix, starts_with_str};
use vstd::prelude::*;

verus! {

/// The marker prefix every instance window's title begins with.
pub open spec fn title_prefix() -> Seq<char> {
    "EVE - "@
}

/// The substring that marks the launcher window, which is never an
/// instance window.
pub open spec fn launcher_marker() -> Seq<char> {
    "Launcher"@
}

/// Whether a raw title denotes an application instance window.
pub open spec fn is_app_title(t: Seq<char>) -> bool {
    has_prefix(t, title_prefix()) && !contains_seq(t, launcher_marker())
}

/// The title with every leading occurrence of the prefix removed.
pub open spec fn strip_prefix_all(t: Seq<char>, p: Seq<char>) -> Seq<char>
    decreases t.len(),
{
    if p.len() > 0 && has_prefix(t, p) {
        strip_prefix_all(t.subrange(p.len() as int, t.len() as int), p)
    } else {
        t
    }
}

/// The stored title of an instance window: the raw title with the
/// marker prefix stripped.
pub open spec fn stored_title(t: Seq<char>) -> Seq<char> {
    strip_prefix_all(t, title_prefix())
}

/// Whether this title passes the application-window filter.
pub fn is_app_window(title: &str) -> (r: bool)
    ensures
        r == is_app_title(title@),
{
    starts_with_str(title, "EVE - ") && !contains_str(title, "Launcher")
}

/// Strips every leading occurrence of the marker prefix from a title.
pub fn strip_app_prefix(title: &str) -> (r: String)
    ensures
        r@ == stored_title(title@),
    decreases title@.len(),
{
    proof {
        reveal_strlit("EVE - ");
    }
    if starts_with_str(title, "EVE - ") {
        let n = title.unicode_len();
        let rest = title.substring_char(6, n);
        strip_app_prefix(rest)
    } else {
        title.to_owned()
    }
}

} // verus!
