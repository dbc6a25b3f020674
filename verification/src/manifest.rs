//! The manifest: a flat table from identifiers to semantic versions, decoded
//! all or nothing from one text.

use crate::error::{Error, Failure, Malformed};
use crate::outside::{clone_version, decode_versions, distinct_keys, entries_view, toml_versions};
use crate::scan::shallow;
use semver::Version;
use vstd::prelude::*;

verus! {

/// A manifest as contracts see it: its entries, keys by their characters.
pub type Entries = Seq<(Seq<char>, Version)>;

/// The version that `entries` holds under `key`, if any.
pub open spec fn lookup(entries: Entries, key: Seq<char>) -> Option<Version>
    decreases entries.len(),
{
    if entries.len() == 0 {
        None
    } else if entries[0].0 == key {
        Some(entries[0].1)
    } else {
        lookup(entries.drop_first(), key)
    }
}

/// A key that no entry has is looked up in vain.
pub proof fn lookup_of_absent_key(entries: Entries, key: Seq<char>)
    requires
        forall|i: int| 0 <= i < entries.len() ==> (#[trigger] entries[i]).0 != key,
    ensures
        lookup(entries, key) is None,
    decreases entries.len(),
{
    if entries.len() > 0 {
        let rest = entries.drop_first();
        assert(entries[0].0 != key);
        assert forall|i: int| 0 <= i < rest.len() implies (#[trigger] rest[i]).0 != key by {
            assert(rest[i] == entries[i + 1]);
        }
        lookup_of_absent_key(rest, key);
    }
}

/// Where no key stands twice, an entry's key is looked up to that entry's
/// version.
pub proof fn lookup_of_present_key(entries: Entries, i: int)
    requires
        0 <= i < entries.len(),
        distinct_keys(entries),
    ensures
        lookup(entries, entries[i].0) == Some(entries[i].1),
    decreases entries.len(),
{
    if i > 0 {
        let rest = entries.drop_first();
        assert(entries[0].0 != entries[i].0);
        assert(rest[i - 1] == entries[i]);
        assert forall|a: int, b: int| 0 <= a < b < rest.len() implies (#[trigger] rest[a]).0 != (
        #[trigger] rest[b]).0 by {
            assert(rest[a] == entries[a + 1]);
            assert(rest[b] == entries[b + 1]);
        }
        lookup_of_present_key(rest, i - 1);
    }
}

/// The manifest that a text decodes to, or why it is none.
pub open spec fn decoded(text: Seq<char>) -> Result<Entries, Failure> {
    match toml_versions(text) {
        Ok(entries) => Ok(entries),
        Err(message) => Err(Failure::Document(message)),
    }
}

/// An immutable table from identifiers to versions, made from one text as a
/// whole. No identifier stands in it twice.
#[derive(Debug, PartialEq, Eq)]
pub struct Manifest {
    entries: Vec<(String, Version)>,
}

impl View for Manifest {
    type V = Entries;

    closed spec fn view(&self) -> Entries {
        entries_view(self.entries@)
    }
}

impl Manifest {
    #[verifier::type_invariant]
    spec fn keys_are_distinct(self) -> bool {
        distinct_keys(entries_view(self.entries@))
    }

    /// No identifier stands in the manifest twice. Every manifest is so.
    pub open spec fn wf(&self) -> bool {
        distinct_keys(self@)
    }

    /// The number of entries.
    pub fn len(&self) -> (n: usize)
        ensures
            n == self@.len(),
            self.wf(),
    {
        proof {
            use_type_invariant(self);
        }
        self.entries.len()
    }

    /// The version under `identifier`, or `None` where the manifest has no
    /// such entry. Identifiers are compared as they stand.
    pub fn get(&self, identifier: &str) -> (r: Option<Version>)
        ensures
            r == lookup(self@, identifier@),
            self.wf(),
    {
        proof {
            use_type_invariant(self);
        }
        let wanted = identifier.to_owned();
        let mut i: usize = 0;
        proof {
            assert(self@.skip(0) =~= self@);
        }
        while i < self.entries.len()
            invariant
                i <= self.entries.len(),
                self.wf(),
                wanted@ == identifier@,
                lookup(self@, identifier@) == lookup(self@.skip(i as int), identifier@),
            decreases self.entries.len() - i,
        {
            proof {
                assert(self@.skip(i as int)[0] == self@[i as int]);
                assert(self@.skip(i as int).drop_first() =~= self@.skip(i + 1));
            }
            if self.entries[i].0 == wanted {
                return Some(clone_version(&self.entries[i].1));
            }
            i += 1;
        }
        None
    }

    /// The manifest of the given entries, in their order. A manifest is a
    /// mapping, so no key may stand twice.
    pub fn from_entries(entries: Vec<(String, Version)>) -> (r: Manifest)
        requires
            distinct_keys(entries_view(entries@)),
        ensures
            r@ == entries_view(entries@),
            r.wf(),
    {
        Manifest { entries }
    }

    /// Decodes a manifest's text: a flat table of `identifier = "version"`
    /// lines in which every value is a semantic version. One value that is
    /// none rejects the whole text.
    pub fn parse(text: &str) -> (r: Result<Manifest, Error>)
        requires
            shallow(text@),
        ensures
            match r {
                Ok(manifest) => decoded(text@) == Ok::<Entries, Failure>(manifest@)
                    && manifest.wf(),
                Err(e) => decoded(text@) == Err::<Entries, Failure>(e@),
            },
    {
        match decode_versions(text) {
            Ok(entries) => Ok(Manifest::from_entries(entries)),
            Err(message) => Err(Error::TomlSerde(Malformed::Document(message))),
        }
    }
}

} // verus!
