//! Store path conventions: validity, classification, and the location
//! of separate debug info inside a debug output.

use vstd::prelude::*;
use crate::text::{
    spec_ends_with, spec_starts_with, count_char, str_ends_with, str_starts_with, str_count_char,
};

verus! {

/// A well-formed store path: rooted at the store directory and made of
/// exactly three slash-separated components.
pub open spec fn spec_valid_store_path(p: Seq<char>) -> bool {
    spec_starts_with(p, "/nix/store"@) && count_char(p, '/') == 3
}

/// Decides whether `p` is a well-formed store path.
pub fn valid_store_path(p: &str) -> (r: bool)
    ensures
        r == spec_valid_store_path(p@),
{
    str_starts_with(p, "/nix/store") && str_count_char(p, '/') == 3
}

/// A debug output is a store path whose name ends in `-debug`.
pub open spec fn spec_is_debug_output(p: Seq<char>) -> bool {
    spec_ends_with(p, "-debug"@)
}

/// Decides whether a store path is a split debug output.
pub fn is_debug_output(p: &str) -> (r: bool)
    ensures
        r == spec_is_debug_output(p@),
{
    str_ends_with(p, "-debug")
}

/// Where the separate debug info of a build-id lives inside a debug
/// output: `<out>/lib/debug/.build-id/<first two digits>/<rest>.debug`.
pub open spec fn spec_debuginfo_path(buildid: Seq<char>, out: Seq<char>) -> Seq<char>
    recommends
        2 <= buildid.len(),
{
    out + "/lib/debug/.build-id/"@ + buildid.subrange(0, 2) + "/"@ + buildid.subrange(
        2,
        buildid.len() as int,
    ) + ".debug"@
}

/// Returns the path where the separate debug info for `buildid` is to
/// be found inside the debug output `debug_output`.
pub fn debuginfo_path_for(buildid: &str, debug_output: &str) -> (r: String)
    requires
        2 <= buildid@.len(),
    ensures
        r@ == spec_debuginfo_path(buildid@, debug_output@),
{
    let mut r = debug_output.to_owned();
    r.push_str("/lib/debug/.build-id/");
    r.push_str(buildid.substring_char(0, 2));
    r.push_str("/");
    r.push_str(buildid.substring_char(2, buildid.unicode_len()));
    r.push_str(".debug");
    r
}

/// Reads a build-id back out of a predicted debug info path, given the
/// debug output it was predicted for.
pub open spec fn spec_parse_debuginfo_path(p: Seq<char>, out: Seq<char>) -> Option<Seq<char>> {
    let pre = out + "/lib/debug/.build-id/"@;
    if pre.len() + 9 <= p.len() && p.subrange(0, pre.len() as int) == pre && spec_ends_with(
        p,
        ".debug"@,
    ) && p[pre.len() + 2int] == '/' {
        let mid = p.subrange(pre.len() as int, p.len() - 6);
        Some(mid.subrange(0, 2) + mid.subrange(3, mid.len() as int))
    } else {
        None
    }
}

/// Debug path prediction round-trips: from the predicted path and the
/// debug output, the build-id is recovered exactly.
pub proof fn lemma_debuginfo_path_round_trip(buildid: Seq<char>, out: Seq<char>)
    requires
        2 <= buildid.len(),
    ensures
        spec_parse_debuginfo_path(spec_debuginfo_path(buildid, out), out) == Some(buildid),
{
    reveal_strlit("/lib/debug/.build-id/");
    reveal_strlit("/");
    reveal_strlit(".debug");
    let p = spec_debuginfo_path(buildid, out);
    let pre = out + "/lib/debug/.build-id/"@;
    assert(p.len() == out.len() + 21 + 2 + 1 + (buildid.len() - 2) + 6);
    assert(p.subrange(0, pre.len() as int) =~= pre);
    assert(p.subrange(p.len() - 6, p.len() as int) =~= ".debug"@);
    assert(p[pre.len() + 2int] == '/');
    let mid = p.subrange(pre.len() as int, p.len() - 6);
    assert(mid.subrange(0, 2) =~= buildid.subrange(0, 2));
    assert(mid.subrange(3, mid.len() as int) =~= buildid.subrange(2, buildid.len() as int));
    assert(mid.subrange(0, 2) + mid.subrange(3, mid.len() as int) =~= buildid);
}

} // verus!
