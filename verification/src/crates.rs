//! A walk over the published versions of one package, in the order in which
//! the registry lists them.

use vstd::prelude::*;
use vstd::string::*;

use crate::command::Command;
use crate::probe::{ProbeOutcome, ProbeRequest};
use crate::runner::{
    attempt_at, least, lemma_all_measured_run, lemma_run_within_budgets, run_made, run_over,
    trial_row, wants_step, Trial,
};

verus! {

/// The error with which `semver` refuses a text that is no version.
#[verifier::external_type_specification]
#[verifier::external_body]
pub struct ExSemverError(semver::Error);

/// The text that `semver` prints for the version it reads from `text`, or
/// `None` where it reads no version from `text`. What it prints is `text`
/// again; the name tells which texts are versions.
pub uninterp spec fn semver_text(text: Seq<char>) -> Option<Seq<char>>;

/// Reads `text` with `semver::Version::parse` and prints the version read
/// with its `Display` impl.
///
/// Trusted: the result is the one that [`semver_text`] names, that is, it
/// depends on the characters of `text` and on nothing else; and a version
/// that `semver` reads is printed as it was written, since the parser takes
/// numbers without leading zeros and keeps the other parts as text.
#[verifier::external_body]
fn read_version(text: &str) -> (version: Result<String, semver::Error>)
    ensures
        match version {
            Ok(printed) => semver_text(text@) == Some(printed@) && printed@ == text@,
            Err(_) => semver_text(text@) is None,
        },
{
    semver::Version::parse(text).map(|version| version.to_string())
}

/// Why a registry's listing cannot be walked.
#[derive(Clone, Copy, Debug, PartialEq, Eq, Structural)]
pub enum RegistryError {
    /// The entry at this place of the listing is no version.
    MalformedVersion(usize),
}

/// The host and path under which the Cloudfront edge serves packages.
pub const CLOUDFRONT_CRATES: &'static str = "https://cloudfront-static.crates.io/crates/";

/// The host and path under which the Fastly edge serves packages.
pub const FASTLY_CRATES: &'static str = "https://fastly-static.crates.io/crates/";

/// The host and path under which the origin store serves packages.
pub const S3_CRATES: &'static str = "https://crates-io.s3.us-west-1.amazonaws.com/crates/";

/// The host and path under which the registry lists the versions of packages.
pub const REGISTRY: &'static str = "https://crates.io/api/v1/crates/";

/// The address at which the registry lists the versions of package `krate`.
pub open spec fn listing_address(krate: Seq<char>) -> Seq<char> {
    REGISTRY@ + krate + "/versions"@
}

/// The address of version `version` of package `krate` under `base`.
pub open spec fn crate_address(base: Seq<char>, krate: Seq<char>, version: Seq<char>) -> Seq<
    char,
> {
    base + krate + "/"@ + krate + "-"@ + version + ".crate"@
}

/// The versions of a listing as `semver` prints them, in the listing's order.
pub open spec fn printed_versions(listing: Seq<String>) -> Seq<Seq<char>> {
    Seq::new(listing.len(), |i: int| semver_text(listing[i]@).unwrap())
}

/// The texts of a sequence of strings.
pub open spec fn texts(strings: Seq<String>) -> Seq<Seq<char>> {
    Seq::new(strings.len(), |i: int| strings[i]@)
}

fn crate_url(base: &str, krate: &str, version: &str) -> (url: String)
    ensures
        url@ == crate_address(base@, krate@, version@),
{
    let mut url = base.to_owned();
    url.append(krate);
    url.append("/");
    url.append(krate);
    url.append("-");
    url.append(version);
    url.append(".crate");
    url
}

/// Writes the address at which the registry lists the versions of `krate`.
pub fn listing_url(krate: &str) -> (url: String)
    ensures
        url@ == listing_address(krate@),
{
    let mut url = REGISTRY.to_owned();
    url.append(krate);
    url.append("/versions");
    url
}

/// A source whose steps are the versions of one package.
///
/// The versions are taken front to back from the listing the source was made
/// with; the source is exhausted when the listing is.
pub struct CratesCommand {
    krate: String,
    versions: Vec<String>,
    position: usize,
    current_version: Option<String>,
}

impl CratesCommand {
    #[verifier::type_invariant]
    spec fn well_formed(&self) -> bool {
        self.position <= self.versions.len()
    }

    /// The package's name.
    pub closed spec fn package(&self) -> Seq<char> {
        self.krate@
    }

    /// The versions not yet walked, next one first.
    pub closed spec fn remaining(&self) -> Seq<Seq<char>> {
        texts(self.versions@).skip(self.position as int)
    }

    /// The version the source stands on.
    pub closed spec fn current(&self) -> Option<Seq<char>> {
        self.current_version.deep_view()
    }

    /// Makes the source for package `krate` from the versions that the
    /// registry lists for it.
    ///
    /// Every entry is read as a semantic version. One entry that is none
    /// spoils the listing: the first such entry is reported and no source is
    /// made. Otherwise the source will walk the versions in the listing's
    /// order, each as `semver` prints it, which is as the listing has it, and
    /// stands on none yet.
    pub fn new(krate: String, listing: Vec<String>) -> (made: Result<Self, RegistryError>)
        ensures
            match made {
                Ok(source) => {
                    &&& forall|i: int|
                        0 <= i < listing.len() ==> semver_text(#[trigger] listing[i]@) is Some
                    &&& source.package() == krate@
                    &&& source.remaining() == printed_versions(listing@)
                    &&& source.remaining() == texts(listing@)
                    &&& source.current() is None
                },
                Err(RegistryError::MalformedVersion(index)) => {
                    &&& index < listing.len()
                    &&& semver_text(listing[index as int]@) is None
                    &&& forall|i: int| 0 <= i < index ==> semver_text(#[trigger] listing[i]@) is Some
                },
            },
    {
        let mut versions: Vec<String> = Vec::new();
        let mut index: usize = 0;
        while index < listing.len()
            invariant
                index <= listing.len(),
                versions.len() == index,
                forall|i: int| 0 <= i < index ==> semver_text(#[trigger] listing[i]@) is Some,
                forall|i: int|
                    0 <= i < index ==> Some((#[trigger] versions[i])@) == semver_text(listing[i]@),
                forall|i: int| 0 <= i < index ==> (#[trigger] versions[i])@ == listing[i]@,
            decreases listing.len() - index,
        {
            match read_version(listing[index].as_str()) {
                Ok(printed) => {
                    versions.push(printed);
                },
                Err(_) => {
                    return Err(RegistryError::MalformedVersion(index));
                },
            }
            index += 1;
        }
        let source = CratesCommand { krate, versions, position: 0, current_version: None };
        assert(source.remaining() =~= printed_versions(listing@));
        assert(source.remaining() =~= texts(listing@));
        Ok(source)
    }
}

impl Command for CratesCommand {
    open spec fn step_label(&self) -> Option<Seq<char>> {
        self.current()
    }

    open spec fn cloudfront_address(&self) -> Option<Seq<char>> {
        match self.current() {
            Some(version) => Some(crate_address(CLOUDFRONT_CRATES@, self.package(), version)),
            None => None,
        }
    }

    open spec fn fastly_address(&self) -> Option<Seq<char>> {
        match self.current() {
            Some(version) => Some(crate_address(FASTLY_CRATES@, self.package(), version)),
            None => None,
        }
    }

    open spec fn s3_address(&self) -> Option<Seq<char>> {
        match self.current() {
            Some(version) => Some(crate_address(S3_CRATES@, self.package(), version)),
            None => None,
        }
    }

    /// The next step is the first of the versions not yet walked; the source
    /// then stands on it and has that one version less to walk. With none
    /// left there is no step, and the source stands on no version any more.
    open spec fn steps_to(&self, step: Option<Seq<char>>, after: &Self) -> bool {
        &&& after.package() == self.package()
        &&& after.current() == step
        &&& if self.remaining().len() > 0 {
            &&& step == Some(self.remaining().first())
            &&& after.remaining() == self.remaining().drop_first()
        } else {
            &&& step is None
            &&& after.remaining() == self.remaining()
        }
    }

    /// Takes the next version off the listing and stands on it. With the
    /// listing exhausted the source stands on no version any more.
    fn next_step(&mut self) -> (step: Option<String>) {
        proof {
            use_type_invariant(&*self);
        }
        if self.position < self.versions.len() {
            let version = self.versions[self.position].clone();
            let label = version.clone();
            self.position = self.position + 1;
            self.current_version = Some(version);
            assert(final(self).remaining() =~= old(self).remaining().drop_first());
            Some(label)
        } else {
            self.current_version = None;
            None
        }
    }

    fn cloudfront_url(&self) -> (url: Option<String>) {
        match &self.current_version {
            Some(version) => Some(
                crate_url(CLOUDFRONT_CRATES, self.krate.as_str(), version.as_str()),
            ),
            None => None,
        }
    }

    fn fastly_url(&self) -> (url: Option<String>) {
        match &self.current_version {
            Some(version) => Some(crate_url(FASTLY_CRATES, self.krate.as_str(), version.as_str())),
            None => None,
        }
    }

    fn s3_url(&self) -> (url: Option<String>) {
        match &self.current_version {
            Some(version) => Some(crate_url(S3_CRATES, self.krate.as_str(), version.as_str())),
            None => None,
        }
    }
}

/// Along a walk, that is, a row of sources of which each steps to the next
/// with a label, the labels are the versions that the first source had yet
/// to walk, from the front, in order and none skipped; the last source has
/// the rest to walk, for the same package.
pub proof fn lemma_walk_follows_listing(path: Seq<CratesCommand>, labels: Seq<Seq<char>>)
    requires
        path.len() == labels.len() + 1,
        forall|i: int|
            0 <= i < labels.len() ==> (#[trigger] path[i]).steps_to(Some(labels[i]), &path[i + 1]),
    ensures
        labels.len() <= path[0].remaining().len(),
        labels == path[0].remaining().take(labels.len() as int),
        path.last().remaining() == path[0].remaining().skip(labels.len() as int),
        path.last().package() == path[0].package(),
    decreases labels.len(),
{
    let listing = path[0].remaining();
    if labels.len() == 0 {
        assert(labels =~= listing.take(0));
        assert(listing.skip(0) =~= listing);
    } else {
        let shorter = labels.drop_last();
        let front = path.drop_last();
        assert forall|i: int| 0 <= i < shorter.len() implies (#[trigger] front[i]).steps_to(
            Some(shorter[i]),
            &front[i + 1],
        ) by {
            assert(path[i].steps_to(Some(labels[i]), &path[i + 1]));
        }
        lemma_walk_follows_listing(front, shorter);
        let at = shorter.len() as int;
        assert(front.last() == path[at]);
        assert(path[at].steps_to(Some(labels[at]), &path[at + 1]));
        assert(path[at].remaining() == listing.skip(at));
        assert(listing.skip(at).first() == listing[at]);
        assert(listing.skip(at).drop_first() =~= listing.skip(at + 1));
        assert(labels =~= listing.take(at + 1));
    }
}

/// A run over a listing attempts the versions that the source had yet to
/// walk, from the front, in order and none skipped, and leaves the rest of
/// them to the source. It stops short of a budget only when the listing is
/// exhausted.
pub proof fn lemma_run_follows_listing<P: Fn(&ProbeRequest) -> ProbeOutcome>(
    start: CratesCommand,
    end: CratesCommand,
    probe: P,
    max_attempts: nat,
    max_samples: nat,
    trials: Seq<Trial>,
    path: Seq<CratesCommand>,
)
    requires
        run_made(start, end, probe, max_attempts, max_samples, trials, path),
    ensures
        trials.len() <= start.remaining().len(),
        forall|i: int| 0 <= i < trials.len() ==> (#[trigger] trials[i]).step == start.remaining()[i],
        end.remaining() == start.remaining().skip(trials.len() as int),
        wants_step(run_over(trials, max_attempts, max_samples)) ==> trials.len()
            == start.remaining().len(),
{
    let labels = Seq::new(trials.len(), |i: int| trials[i].step);
    assert forall|i: int| 0 <= i < labels.len() implies (#[trigger] path[i]).steps_to(
        Some(labels[i]),
        &path[i + 1],
    ) by {
        assert(attempt_at(probe, trials, path, i));
    }
    lemma_walk_follows_listing(path, labels);
    assert forall|i: int| 0 <= i < trials.len() implies (#[trigger] trials[i]).step
        == start.remaining()[i] by {
        assert(labels[i] == trials[i].step);
    }
}

/// Where every download of every version is measured, a run over a listing
/// of `n` versions reports the first `least(max_samples, max_attempts, n)` of
/// them, in the listing's order.
pub proof fn lemma_all_measured_listing_run<P: Fn(&ProbeRequest) -> ProbeOutcome>(
    start: CratesCommand,
    end: CratesCommand,
    probe: P,
    max_attempts: nat,
    max_samples: nat,
    trials: Seq<Trial>,
    path: Seq<CratesCommand>,
)
    requires
        run_made(start, end, probe, max_attempts, max_samples, trials, path),
        forall|i: int| 0 <= i < trials.len() ==> trial_row(#[trigger] trials[i]) is Some,
    ensures
        trials.len() == least(max_samples, max_attempts, start.remaining().len()),
        run_over(trials, max_attempts, max_samples).rows.len() == trials.len(),
        forall|i: int|
            0 <= i < trials.len() ==> (#[trigger] run_over(
                trials,
                max_attempts,
                max_samples,
            ).rows[i]).step == start.remaining()[i],
{
    lemma_run_follows_listing(start, end, probe, max_attempts, max_samples, trials, path);
    lemma_all_measured_run(trials, max_attempts, max_samples);
    lemma_run_within_budgets(trials, max_attempts, max_samples);
}

} // verus!
