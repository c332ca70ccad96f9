//! Tells command-line tools apart from other callers by their user agent.
use vstd::prelude::*;

use crate::text::starts_with;

verus! {

/// A user agent is tool-like when it starts with `curl`, case and all.
pub open spec fn tool_like(ua: Seq<char>) -> bool {
    "curl"@.is_prefix_of(ua)
}

/// Whether the caller looks like a command-line HTTP client.
pub fn is_tool_like(ua: &str) -> (r: bool)
    ensures
        r == tool_like(ua@),
{
    starts_with(ua, "curl")
}

} // verus!
