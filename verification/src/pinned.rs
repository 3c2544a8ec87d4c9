//! The versions of the tools that stack delegates to, as tested.

use crate::text;
use vstd::prelude::*;

verus! {

pub const VFOX_VERSION: &'static str = "1.0.11";

pub const UV_VERSION: &'static str = "0.11.7";

pub const CADDY_VERSION: &'static str = "2.11.4";

/// The version that `tool` is pinned at.
pub open spec fn pinned(tool: Seq<char>) -> Option<Seq<char>> {
    if tool == "vfox"@ {
        Some(VFOX_VERSION@)
    } else if tool == "uv"@ {
        Some(UV_VERSION@)
    } else if tool == "caddy"@ {
        Some(CADDY_VERSION@)
    } else {
        None
    }
}

/// The version that `tool` is pinned at, if stack knows the tool.
pub fn pinned_version(tool: &str) -> (r: Option<&'static str>)
    ensures
        text::opt_str(r) == pinned(tool@),
{
    if text::same(tool, "vfox") {
        Some(VFOX_VERSION)
    } else if text::same(tool, "uv") {
        Some(UV_VERSION)
    } else if text::same(tool, "caddy") {
        Some(CADDY_VERSION)
    } else {
        None
    }
}

} // verus!
