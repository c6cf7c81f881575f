//! Version output: a one-line form and a longer form with build details.

use vstd::prelude::*;
use vstd::string::StringExecFns;

use crate::util::push_char;

verus! {

/// The short version line: the application name and its version.
pub open spec fn spec_version_short() -> Seq<char> {
    "pokemon-term 0.1.0"@
}

/// Generate a short version string in the form `pokemon-term x.y.z`.
pub fn version_short() -> (r: String)
    ensures
        r@ == spec_version_short(),
{
    let app_name = "pokemon-term";
    let version = "0.1.0";
    let mut out = String::from_str(app_name);
    push_char(&mut out, ' ');
    crate::util::write(&mut out, version);
    proof {
        reveal_strlit("pokemon-term");
        reveal_strlit("0.1.0");
        reveal_strlit("pokemon-term 0.1.0");
        assert(out@ =~= spec_version_short());
    }
    out
}

/// The long version text: the version line with the source revision the
/// build was made from, then the authors, each on its own line.  A detail
/// that the build environment did not provide is left empty or `N/A`.
pub open spec fn spec_version_long() -> Seq<char> {
    "pokemon-term 0.1.0 (rev )\nN/A"@
}

/// Generate a longer multi-line version string, including not only the
/// version but some other information about the build.
pub fn version_long() -> (r: String)
    ensures
        r@ == spec_version_long(),
{
    let app_name = "pokemon-term";
    let version = "0.1.0";
    let authors = "N/A";
    let git_hash = "";
    let mut out = String::from_str(app_name);
    push_char(&mut out, ' ');
    crate::util::write(&mut out, version);
    crate::util::write(&mut out, " (rev ");
    crate::util::write(&mut out, git_hash);
    push_char(&mut out, ')');
    push_char(&mut out, '\n');
    crate::util::write(&mut out, authors);
    proof {
        reveal_strlit("pokemon-term");
        reveal_strlit("0.1.0");
        reveal_strlit(" (rev ");
        reveal_strlit("");
        reveal_strlit("N/A");
        reveal_strlit("pokemon-term 0.1.0 (rev )\nN/A");
        assert(out@ =~= spec_version_long());
    }
    out
}

} // verus!
