//! What this library takes on trust from the `toml` and `semver` crates.

use crate::scan::shallow;
use vstd::prelude::*;

verus! {

/// `semver::Version`, carried through as an opaque value.
#[verifier::external_type_specification]
#[verifier::external_body]
pub struct ExVersion(semver::Version);

/// What `toml::from_str` returns for a document when it is asked for a map
/// from strings to versions: the entries in ascending key order, or the
/// crate's error as it prints.
pub uninterp spec fn toml_versions(text: Seq<char>) -> Result<Seq<(Seq<char>, semver::Version)>, Seq<char>>;

/// No two entries of `entries` share a key.
pub open spec fn distinct_keys<V>(entries: Seq<(Seq<char>, V)>) -> bool {
    forall|i: int, j: int|
        0 <= i < j < entries.len() ==> (#[trigger] entries[i]).0 != (#[trigger] entries[j]).0
}

/// Stored entries as contracts see them: each key by its characters.
pub open spec fn entries_view(entries: Seq<(String, semver::Version)>) -> Seq<
    (Seq<char>, semver::Version),
> {
    entries.map_values(|e: (String, semver::Version)| (e.0@, e.1))
}

/// Calls `Clone::clone` of `semver::Version`. The contract claims that the
/// copy equals the value it was made from.
#[verifier::external_body]
pub(crate) fn clone_version(version: &semver::Version) -> (r: semver::Version)
    ensures
        r == *version,
{
    version.clone()
}

/// Calls `toml::from_str` for a `BTreeMap<String, semver::Version>`, hands
/// the map's entries out in the map's own order, and calls `to_string` on
/// the crate's error. The contract claims that the outcome is a function of
/// the document, named `toml_versions`, and that the keys of a map are
/// distinct. The crate's parser calls itself once for each array or inline
/// table that is open at a place and once for each part of a dotted key,
/// with no limit of its own, so the contract asks for a shallow document.
#[verifier::external_body]
pub(crate) fn decode_versions(text: &str) -> (r: Result<Vec<(String, semver::Version)>, String>)
    requires
        shallow(text@),
    ensures
        match r {
            Ok(entries) => toml_versions(text@) == Ok::<_, Seq<char>>(entries_view(entries@))
                && distinct_keys(entries_view(entries@)),
            Err(message) => toml_versions(text@) == Err::<Seq<(Seq<char>, semver::Version)>, _>(
                message@,
            ),
        },
{
    let decoded: Result<std::collections::BTreeMap<String, semver::Version>, toml::de::Error> =
        toml::from_str(text);
    match decoded {
        Ok(entries) => Ok(entries.into_iter().collect()),
        Err(e) => Err(e.to_string()),
    }
}

} // verus!
