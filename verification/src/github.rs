//! The alias catalog: where it comes from.

use vstd::prelude::*;
use vstd::string::StringExecFns;
use crate::number::{decimal, push_decimal};

verus! {

/// The major number of the version of the catalog that is read.
pub const VERSION_MAJOR: usize = 4;

/// The minor number of the version of the catalog that is read.
pub const VERSION_MINOR: usize = 1;

/// The patch number of the version of the catalog that is read.
pub const VERSION_PATCH: usize = 0;

/// `major.minor.patch`, each part in decimal.
pub open spec fn dotted(major: nat, minor: nat, patch: nat) -> Seq<char> {
    decimal(major) + "."@ + decimal(minor) + "."@ + decimal(patch)
}

/// Appends `dotted`.
pub fn push_dotted(out: &mut String, major: usize, minor: usize, patch: usize)
    ensures
        final(out)@ == old(out)@ + dotted(major as nat, minor as nat, patch as nat),
{
    push_decimal(out, major as u64);
    out.append(".");
    push_decimal(out, minor as u64);
    out.append(".");
    push_decimal(out, patch as u64);
    assert(out@ =~= old(out)@ + dotted(major as nat, minor as nat, patch as nat));
}

/// The address of the alias catalog in the version that this library reads.
pub open spec fn genmoji_url_text() -> Seq<char> {
    "https://raw.githubusercontent.com/github/gemoji/v"@ + dotted(
        VERSION_MAJOR as nat,
        VERSION_MINOR as nat,
        VERSION_PATCH as nat,
    ) + "/db/emoji.json"@
}

/// The address of the alias catalog in the version that this library reads.
pub fn genmoji_url() -> (r: String)
    ensures
        r@ == genmoji_url_text(),
{
    let mut url = String::from_str("https://raw.githubusercontent.com/github/gemoji/v");
    push_dotted(&mut url, VERSION_MAJOR, VERSION_MINOR, VERSION_PATCH);
    url.append("/db/emoji.json");
    url
}

} // verus!
