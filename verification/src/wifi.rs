//! The connectivity gate's classification of network-status output.
//!
//! The status query prints one association per line in the form
//! `<active>:<network-name>`. The tool is on the target network exactly
//! when some line begins with `yes:` followed by the target network's
//! name prefix.

use vstd::prelude::*;
use vstd::string::StrSliceExecFns;
use crate::strutil::match_at;

verus! {

/// Position `i` begins a line of `s`.
pub open spec fn line_start(s: Seq<char>, i: int) -> bool {
    i == 0 || s[i - 1] == '\n'
}

/// The marker with which a line reporting an active association with the
/// target network begins.
pub open spec fn target_marker() -> Seq<char> {
    "yes:LPU"@
}

/// Some line of the status output begins with the target marker.
pub open spec fn shows_target(s: Seq<char>) -> bool {
    exists|i: int|
        0 <= i && i + target_marker().len() <= s.len() && line_start(s, i)
            && #[trigger] s.subrange(i, i + target_marker().len() as int) == target_marker()
}

/// Classifies raw status output: true exactly when some line of it
/// begins with the target marker. The caller treats any failure to
/// obtain output as an empty string, which classifies as false.
pub fn output_shows_target(output: &str) -> (r: bool)
    ensures
        r == shows_target(output@),
{
    proof {
        reveal_strlit("yes:LPU");
    }
    let marker = "yes:LPU";
    let mlen = marker.unicode_len();
    let slen = output.unicode_len();
    let mut i: usize = 0;
    let mut at_start = true;
    while i < slen
        invariant
            marker@ == target_marker(),
            mlen == target_marker().len(),
            mlen > 0,
            slen == output@.len(),
            i <= slen,
            at_start == line_start(output@, i as int),
            forall|k: int|
                0 <= k < i && line_start(output@, k) && k + target_marker().len() <= output@.len()
                    ==> #[trigger] output@.subrange(k, k + target_marker().len() as int)
                    != target_marker(),
        decreases slen - i,
    {
        if at_start && mlen <= slen - i {
            if match_at(output, marker, i) {
                assert(shows_target(output@)) by {
                    assert(output@.subrange(i as int, i as int + target_marker().len() as int)
                        == target_marker());
                };
                return true;
            }
        }
        at_start = output.get_char(i) == '\n';
        i += 1;
    }
    false
}

} // verus!
