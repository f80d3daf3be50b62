//! The selective filtering policy shared by every format driver: an entry is
//! kept exactly when its name ends with one of a fixed set of wanted suffixes.

use vstd::prelude::*;

verus! {

/// `name` ends with `suffix`, character for character, case-sensitively.
pub open spec fn suffix_matches(name: Seq<char>, suffix: Seq<char>) -> bool {
    name.len() >= suffix.len() && name.subrange(
        name.len() - suffix.len(),
        name.len() as int,
    ) == suffix
}

/// The fixed whitelist: character files and their override descriptors.
pub open spec fn spec_wanted(name: Seq<char>) -> bool {
    suffix_matches(name, ".cbb"@) || suffix_matches(name, ".json"@)
}

/// Relies on str::ends_with with a str pattern: returns true exactly when the
/// characters of `s` end with the characters of `suffix`.
#[verifier::external_body]
fn str_ends_with(s: &str, suffix: &str) -> (r: bool)
    ensures
        r == suffix_matches(s@, suffix@),
{
    s.ends_with(suffix)
}

/// The filter predicate applied uniformly by all drivers.
pub fn is_wanted(name: &str) -> (r: bool)
    ensures
        r == spec_wanted(name@),
{
    str_ends_with(name, ".cbb") || str_ends_with(name, ".json")
}

/// Whether an extracted entry is a character file rather than an override
/// descriptor.
pub fn is_character_file(name: &str) -> (r: bool)
    ensures
        r == suffix_matches(name@, ".cbb"@),
{
    str_ends_with(name, ".cbb")
}

} // verus!
