//! One resolution: the mirrors are tried in their order, one at a time, and
//! the first that yields a manifest decides.
//!
//! The library does not fetch. The caller fetches the mirror that the
//! resolver points at and hands over what came back; the resolver says
//! whether the run is over or which mirror is next. No mirror is asked
//! before the one ahead of it has failed, so a run makes at most as many
//! requests as there are mirrors.
//!
//! A caller that races the mirrors instead hands the attempts over in the
//! order in which they end: the first manifest still decides, and the
//! failure that arrives last is the run's.

use crate::error::{Error, Failure, Malformed};
use crate::manifest::{decoded, lookup, Entries, Manifest};
use crate::scan::{is_shallow, line_dots, openers, shallow};
use semver::Version;
use vstd::prelude::*;

verus! {

/// What one attempt on one mirror brought.
#[derive(Debug, Clone, PartialEq, Eq)]
pub enum Fetched {
    /// The response's body, as text.
    Body(String),
    /// The transport's report of why there is no body.
    Failed(String),
}

/// An attempt as contracts see it: the body, or else the report.
pub type Attempt = Result<Seq<char>, Seq<char>>;

impl View for Fetched {
    type V = Attempt;

    open spec fn view(&self) -> Attempt {
        match *self {
            Fetched::Body(text) => Ok(text@),
            Fetched::Failed(message) => Err(message@),
        }
    }
}

/// Attempts as contracts see them.
pub open spec fn attempts_view(attempts: Seq<Fetched>) -> Seq<Attempt> {
    attempts.map_values(|f: Fetched| f@)
}

/// The manifest that one attempt yields, or why it yields none. A body
/// that is no shallow document counts as malformed and is not decoded.
pub open spec fn manifest_of(attempt: Attempt) -> Result<Entries, Failure> {
    match attempt {
        Ok(text) => if shallow(text) {
            decoded(text)
        } else {
            Err(Failure::TooDeep)
        },
        Err(message) => Err(Failure::Network(message)),
    }
}

/// A body with no opener and no dot between its strings and comments, as
/// every flat table of quoted versions is, is decoded and never taken for
/// too deep, however long it is and whatever its keys, values and comments
/// hold.
pub proof fn flat_body_is_decoded(text: Seq<char>)
    requires
        openers(vstd::utf8::encode_utf8(text)) == 0,
        line_dots(vstd::utf8::encode_utf8(text)) == 0,
    ensures
        shallow(text),
        manifest_of(Ok(text)) == decoded(text),
{
}

/// The outcome of a run over the mirrors, given what each attempt would
/// bring: the first manifest decides, found or not; with no manifest at all
/// the last mirror's failure is the run's.
pub open spec fn resolution(identifier: Seq<char>, attempts: Seq<Attempt>) -> Result<
    Option<Version>,
    Failure,
>
    recommends
        attempts.len() > 0,
    decreases attempts.len(),
{
    match manifest_of(attempts[0]) {
        Ok(entries) => Ok(lookup(entries, identifier)),
        Err(failure) => if attempts.len() <= 1 {
            Err(failure)
        } else {
            resolution(identifier, attempts.drop_first())
        },
    }
}

/// The first mirror that yields a manifest decides the run, whatever failed
/// before it and whether or not the manifest holds the identifier.
pub proof fn first_manifest_decides(identifier: Seq<char>, attempts: Seq<Attempt>, k: int)
    requires
        0 <= k < attempts.len(),
        forall|j: int| 0 <= j < k ==> manifest_of(#[trigger] attempts[j]) is Err,
        manifest_of(attempts[k]) is Ok,
    ensures
        resolution(identifier, attempts) == Ok::<Option<Version>, Failure>(
            lookup(manifest_of(attempts[k])->Ok_0, identifier),
        ),
    decreases k,
{
    if k > 0 {
        let rest = attempts.drop_first();
        assert(manifest_of(attempts[0]) is Err);
        assert forall|j: int| 0 <= j < k - 1 implies manifest_of(#[trigger] rest[j]) is Err by {
            assert(rest[j] == attempts[j + 1]);
        }
        assert(rest[k - 1] == attempts[k]);
        first_manifest_decides(identifier, rest, k - 1);
    }
}

/// An identifier that the deciding manifest lacks is no error: the run
/// ends with `Ok(None)`.
pub proof fn absence_is_no_error(identifier: Seq<char>, attempts: Seq<Attempt>, k: int)
    requires
        0 <= k < attempts.len(),
        forall|j: int| 0 <= j < k ==> manifest_of(#[trigger] attempts[j]) is Err,
        manifest_of(attempts[k]) is Ok,
        forall|i: int|
            0 <= i < manifest_of(attempts[k])->Ok_0.len() ==> (#[trigger] manifest_of(
                attempts[k],
            )->Ok_0[i]).0 != identifier,
    ensures
        resolution(identifier, attempts) == Ok::<Option<Version>, Failure>(None),
{
    first_manifest_decides(identifier, attempts, k);
    crate::manifest::lookup_of_absent_key(manifest_of(attempts[k])->Ok_0, identifier);
}

/// Where every mirror fails, the run fails with the last mirror's failure.
pub proof fn exhaustion_gives_last_failure(identifier: Seq<char>, attempts: Seq<Attempt>)
    requires
        attempts.len() > 0,
        forall|j: int| 0 <= j < attempts.len() ==> manifest_of(#[trigger] attempts[j]) is Err,
    ensures
        resolution(identifier, attempts) == Err::<Option<Version>, Failure>(
            manifest_of(attempts.last())->Err_0,
        ),
    decreases attempts.len(),
{
    assert(manifest_of(attempts[0]) is Err);
    if attempts.len() > 1 {
        let rest = attempts.drop_first();
        assert forall|j: int| 0 <= j < rest.len() implies manifest_of(#[trigger] rest[j]) is Err by {
            assert(rest[j] == attempts[j + 1]);
        }
        assert(rest.last() == attempts.last());
        exhaustion_gives_last_failure(identifier, rest);
    }
}

/// A run fails only where every mirror failed.
pub proof fn failure_means_every_mirror_failed(identifier: Seq<char>, attempts: Seq<Attempt>)
    requires
        attempts.len() > 0,
        resolution(identifier, attempts) is Err,
    ensures
        forall|j: int| 0 <= j < attempts.len() ==> manifest_of(#[trigger] attempts[j]) is Err,
    decreases attempts.len(),
{
    if attempts.len() > 1 {
        let rest = attempts.drop_first();
        failure_means_every_mirror_failed(identifier, rest);
        assert forall|j: int| 0 <= j < attempts.len() implies manifest_of(
            #[trigger] attempts[j],
        ) is Err by {
            if j > 0 {
                assert(rest[j - 1] == attempts[j]);
            }
        }
    }
}

/// The manifest of one mirror, from what fetching it brought: a failed
/// fetch is reported as it came, a body is decoded as a whole, unless it
/// nests too deeply to be a manifest.
pub fn get_versions(fetched: &Fetched) -> (r: Result<Manifest, Error>)
    ensures
        match r {
            Ok(manifest) => manifest_of(fetched@) == Ok::<Entries, Failure>(manifest@)
                && manifest.wf(),
            Err(e) => manifest_of(fetched@) == Err::<Entries, Failure>(e@),
        },
{
    match fetched {
        Fetched::Body(text) => {
            if is_shallow(text.as_str()) {
                Manifest::parse(text.as_str())
            } else {
                Err(Error::TomlSerde(Malformed::TooDeep))
            }
        },
        Fetched::Failed(message) => Err(Error::Network(message.clone())),
    }
}

/// A resolver as contracts see it.
pub struct ResolverView {
    /// The identifier that is looked up.
    pub identifier: Seq<char>,
    /// How many mirrors there are.
    pub mirrors: nat,
    /// The index of the mirror that is tried now.
    pub position: nat,
}

/// The state of a run over the mirrors: which one is tried now.
#[derive(Debug)]
pub struct Resolver {
    identifier: String,
    mirrors: usize,
    position: usize,
}

/// What a resolver says after an attempt.
#[derive(Debug)]
pub enum Step {
    /// The run is over, with this outcome.
    Done(Result<Option<Version>, Error>),
    /// The mirror failed and another is left: fetch the one that this
    /// resolver points at.
    Next(Resolver),
}

impl View for Resolver {
    type V = ResolverView;

    closed spec fn view(&self) -> ResolverView {
        ResolverView {
            identifier: self.identifier@,
            mirrors: self.mirrors as nat,
            position: self.position as nat,
        }
    }
}

impl Resolver {
    #[verifier::type_invariant]
    spec fn points_at_a_mirror(self) -> bool {
        self.position < self.mirrors
    }

    /// The resolver points at one of its mirrors. Every resolver does.
    pub open spec fn wf(&self) -> bool {
        self@.position < self@.mirrors
    }

    /// A run for `identifier` over `mirrors` mirrors, at the first of them.
    pub fn new(identifier: &str, mirrors: usize) -> (r: Resolver)
        requires
            mirrors > 0,
        ensures
            r.wf(),
            r@ == (ResolverView { identifier: identifier@, mirrors: mirrors as nat, position: 0 }),
    {
        Resolver { identifier: identifier.to_owned(), mirrors, position: 0 }
    }

    /// The index, in the mirror list, of the mirror to fetch now: the number
    /// of attempts that have failed so far.
    pub fn position(&self) -> (i: usize)
        ensures
            i == self@.position,
            self.wf(),
    {
        proof {
            use_type_invariant(self);
        }
        self.position
    }

    /// Takes what fetching the current mirror brought. A manifest ends the
    /// run with the identifier's version or `None`; a failure moves on to
    /// the next mirror, or ends the run with that failure at the last one.
    pub fn step(self, fetched: &Fetched) -> (r: Step)
        ensures
            self.wf(),
            match manifest_of(fetched@) {
                Ok(entries) => r matches Step::Done(Ok(found)) && found == lookup(
                    entries,
                    self@.identifier,
                ),
                Err(failure) => if self@.position + 1 == self@.mirrors {
                    r matches Step::Done(Err(e)) && e@ == failure
                } else {
                    r matches Step::Next(next) && next.wf() && next@ == (ResolverView {
                        position: self@.position + 1,
                        ..self@
                    })
                },
            },
    {
        proof {
            use_type_invariant(&self);
        }
        match get_versions(fetched) {
            Ok(manifest) => Step::Done(Ok(manifest.get(self.identifier.as_str()))),
            Err(e) => {
                if self.position + 1 == self.mirrors {
                    Step::Done(Err(e))
                } else {
                    Step::Next(
                        Resolver {
                            identifier: self.identifier,
                            mirrors: self.mirrors,
                            position: self.position + 1,
                        },
                    )
                }
            },
        }
    }
}

/// Resolves `identifier` from what the mirrors brought, `attempts[i]` being
/// the attempt on mirror `i`. Attempts after the deciding one are not
/// looked at.
pub fn get_version(identifier: &str, attempts: &Vec<Fetched>) -> (r: Result<Option<Version>, Error>)
    requires
        attempts.len() > 0,
    ensures
        match r {
            Ok(found) => resolution(identifier@, attempts_view(attempts@)) == Ok::<
                Option<Version>,
                Failure,
            >(found),
            Err(e) => resolution(identifier@, attempts_view(attempts@)) == Err::<
                Option<Version>,
                Failure,
            >(e@),
        },
{
    let ghost all = attempts_view(attempts@);
    let mut resolver = Resolver::new(identifier, attempts.len());
    proof {
        assert(all.skip(0) =~= all);
    }
    loop
        invariant
            all == attempts_view(attempts@),
            resolver.wf(),
            resolver@.identifier == identifier@,
            resolver@.mirrors == attempts.len(),
            resolution(identifier@, all) == resolution(
                identifier@,
                all.skip(resolver@.position as int),
            ),
        decreases attempts.len() - resolver@.position,
    {
        let i: usize = resolver.position();
        proof {
            assert(all.skip(i as int)[0] == attempts[i as int]@);
            assert(all.skip(i as int).drop_first() =~= all.skip(i + 1));
        }
        match resolver.step(&attempts[i]) {
            Step::Done(outcome) => {
                return outcome;
            },
            Step::Next(next) => {
                resolver = next;
            },
        }
    }
}

} // verus!
