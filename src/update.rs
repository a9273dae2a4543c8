//! The reconciliation engine: per selected source, resolve a candidate
//! version, decide whether it is stale, fetch the new hash and record the
//! result, isolating the failures of one source from the others.
//!
//! The engine is written as steps between which the caller does the outside
//! work: `start_source` may ask for a listing of remote refs, `on_listing`
//! takes it and may ask for an artifact hash, `on_fetched` takes that.
//! `crate::run` strings these steps together over a whole lockfile.
use crate::source::{
    expanded_url, BuildFullUrlError, GetArtifactHashError, Source, SourceView,
};
use crate::text::str_eq;
use crate::updater::{
    candidate_spec, resolved_repo, scheme_unpack, GetLatestVersionError, ListingFailure,
    RemoteQuery, VersionUpdateScheme,
};
use crate::weburl::url_parse_of;
use indexmap::IndexMap;
use vstd::prelude::*;

verus! {

/// `--pin` and `--unpin`: toggle pinning instead of updating.
#[derive(Debug)]
pub struct UpdatePinArgs {
    pub pin: bool,
    pub unpin: bool,
}

/// The options of one reconciliation run.
#[derive(Debug)]
pub struct UpdateArgs {
    /// The sources to reconcile; empty selects all of them.
    pub source_names: Vec<String>,
    /// Fetch the hash again even where the candidate was checked before.
    pub refetch: bool,
    /// Reconcile pinned sources too.
    pub force: bool,
    pub show_updated: bool,
    pub json: bool,
    pub pin: UpdatePinArgs,
}

/// A version change, for reporting; equal versions mean that only the hash
/// (or the pinning) changed.
#[derive(Debug)]
pub struct VersionDiff {
    pub old: String,
    pub new: String,
}

impl View for VersionDiff {
    type V = (Seq<char>, Seq<char>);

    open spec fn view(&self) -> (Seq<char>, Seq<char>) {
        (self.old@, self.new@)
    }
}

impl VersionDiff {
    pub fn new(old: String, new: String) -> (r: VersionDiff)
        ensures
            r.old == old,
            r.new == new,
    {
        VersionDiff { old, new }
    }

    /// `changed hash` where the versions are equal, else `old -> new`.
    pub fn describe(&self) -> (r: String)
        ensures
            self.old@ == self.new@ ==> r@ == "changed hash"@,
            self.old@ != self.new@ ==> r@ == self.old@ + " -> "@ + self.new@,
    {
        if self.old == self.new {
            "changed hash".to_owned()
        } else {
            let head = crate::text::concat_strs(self.old.as_str(), " -> ");
            crate::text::concat_strs(head.as_str(), self.new.as_str())
        }
    }
}

/// Why a source was skipped with an error.
#[derive(Debug)]
pub enum SourceFailure {
    Resolve(GetLatestVersionError),
    Prefetch(GetArtifactHashError),
}

/// How one source came out of a run.
#[derive(Debug)]
pub enum Outcome {
    /// The version, the hash or the pinning changed.
    Updated(VersionDiff),
    UpToDate,
    /// Pinned, and not forced.
    Skipped,
    /// Skipped with an error that concerns this source only.
    Failed(SourceFailure),
}

/// The outcome of one source, and whether any of its fields changed.
#[derive(Debug)]
pub struct SourceResult {
    pub outcome: Outcome,
    pub changed: bool,
}

/// Why a whole run stops, writing nothing.
#[derive(Debug)]
pub enum UpdateAbort {
    Resolve(GetLatestVersionError),
    BuildUrl(BuildFullUrlError),
}

/// An artifact to hash: its URL, whether to unpack it, and the candidate
/// version it belongs to.
#[derive(Debug)]
pub struct FetchRequest {
    pub url: String,
    pub unpack: bool,
    pub candidate: String,
}

/// What the caller does next for a source.
#[derive(Debug)]
pub enum Step {
    Done(SourceResult),
    List(RemoteQuery),
    Fetch(FetchRequest),
    Abort(UpdateAbort),
}

/// `indexmap::IndexMap`, an insertion-ordered map, as the report holds one.
#[verifier::external_type_specification]
#[verifier::external_body]
#[verifier::reject_recursive_types(K)]
#[verifier::reject_recursive_types(V)]
#[verifier::reject_recursive_types(S)]
pub struct ExIndexMap<K, V, S>(IndexMap<K, V, S>);

/// What a map of updated sources holds: names and version changes, in the
/// order of insertion.
pub uninterp spec fn diff_entries(m: IndexMap<String, VersionDiff>) -> Seq<(Seq<char>, (Seq<char>, Seq<char>))>;

/// The position of the first entry named `k`.
pub open spec fn entry_index(e: Seq<(Seq<char>, (Seq<char>, Seq<char>))>, k: Seq<char>) -> Option<int>
    decreases e.len(),
{
    if e.len() == 0 {
        None
    } else if e.last().0 == k && entry_index(e.drop_last(), k) is None {
        Some(e.len() - 1)
    } else {
        entry_index(e.drop_last(), k)
    }
}

/// Relies on `IndexMap::new`: a map with no entries.
#[verifier::external_body]
fn diff_map_new() -> (r: IndexMap<String, VersionDiff>)
    ensures
        diff_entries(r) == Seq::<(Seq<char>, (Seq<char>, Seq<char>))>::empty(),
{
    IndexMap::new()
}

/// Relies on `IndexMap::insert`: an existing key keeps its place and takes the
/// new value; a new key goes last.
#[verifier::external_body]
fn diff_map_insert(m: &mut IndexMap<String, VersionDiff>, k: String, v: VersionDiff)
    ensures
        match entry_index(diff_entries(*old(m)), k@) {
            Some(i) => diff_entries(*final(m)) == diff_entries(*old(m)).update(i, (k@, v@)),
            None => diff_entries(*final(m)) == diff_entries(*old(m)).push((k@, v@)),
        },
{
    m.insert(k, v);
}

/// Relies on `IndexMap::len`: the number of entries.
#[verifier::external_body]
fn diff_map_len(m: &IndexMap<String, VersionDiff>) -> (r: usize)
    ensures
        r == diff_entries(*m).len(),
{
    m.len()
}

/// The sources that a run changed, with their version changes, in the order
/// they were reconciled.
#[derive(Debug)]
pub struct UpdatedSources {
    pub inner: IndexMap<String, VersionDiff>,
}

impl UpdatedSources {
    pub fn new() -> (r: UpdatedSources)
        ensures
            diff_entries(r.inner) == Seq::<(Seq<char>, (Seq<char>, Seq<char>))>::empty(),
    {
        UpdatedSources { inner: diff_map_new() }
    }

    pub fn len(&self) -> (r: usize)
        ensures
            r == diff_entries(self.inner).len(),
    {
        diff_map_len(&self.inner)
    }
}

impl Default for UpdatedSources {
    fn default() -> (r: UpdatedSources)
        ensures
            diff_entries(r.inner) == Seq::<(Seq<char>, (Seq<char>, Seq<char>))>::empty(),
    {
        UpdatedSources::new()
    }
}

/// The tally of a run: the updated sources, the counts of the other
/// outcomes (a failure counts as skipped and as an error), and whether any
/// source changed, which decides whether the lockfile is written.
#[derive(Debug)]
pub struct UpdateReport {
    pub updated: UpdatedSources,
    /// The sources skipped with an error, and why, in order.
    pub failures: Vec<(String, SourceFailure)>,
    pub up_to_date: usize,
    pub skipped: usize,
    pub errors: usize,
    pub changed: bool,
}

pub open spec fn bump(n: usize) -> usize {
    if n == usize::MAX {
        n
    } else {
        (n + 1) as usize
    }
}

impl UpdateReport {
    pub fn new() -> (r: UpdateReport)
        ensures
            diff_entries(r.updated.inner) == Seq::<(Seq<char>, (Seq<char>, Seq<char>))>::empty(),
            r.failures@.len() == 0,
            r.up_to_date == 0,
            r.skipped == 0,
            r.errors == 0,
            !r.changed,
    {
        UpdateReport { updated: UpdatedSources::new(), failures: Vec::new(), up_to_date: 0, skipped: 0, errors: 0, changed: false }
    }

    /// Counts the result of the source `name` (counts stop at `usize::MAX`).
    pub fn record(&mut self, name: String, result: SourceResult)
        ensures
            final(self).changed == (old(self).changed || result.changed),
            match result.outcome {
                Outcome::Failed(f) => final(self).failures@ == old(self).failures@.push((name, f)),
                _ => final(self).failures@ == old(self).failures@,
            },
            match result.outcome {
                Outcome::Updated(d) => {
                    &&& match entry_index(diff_entries(old(self).updated.inner), name@) {
                        Some(i) => diff_entries(final(self).updated.inner) == diff_entries(
                            old(self).updated.inner,
                        ).update(i, (name@, d@)),
                        None => diff_entries(final(self).updated.inner) == diff_entries(
                            old(self).updated.inner,
                        ).push((name@, d@)),
                    }
                    &&& final(self).up_to_date == old(self).up_to_date
                    &&& final(self).skipped == old(self).skipped
                    &&& final(self).errors == old(self).errors
                },
                Outcome::UpToDate => {
                    &&& diff_entries(final(self).updated.inner) == diff_entries(old(self).updated.inner)
                    &&& final(self).up_to_date == bump(old(self).up_to_date)
                    &&& final(self).skipped == old(self).skipped
                    &&& final(self).errors == old(self).errors
                },
                Outcome::Skipped => {
                    &&& diff_entries(final(self).updated.inner) == diff_entries(old(self).updated.inner)
                    &&& final(self).up_to_date == old(self).up_to_date
                    &&& final(self).skipped == bump(old(self).skipped)
                    &&& final(self).errors == old(self).errors
                },
                Outcome::Failed(_) => {
                    &&& diff_entries(final(self).updated.inner) == diff_entries(old(self).updated.inner)
                    &&& final(self).up_to_date == old(self).up_to_date
                    &&& final(self).skipped == bump(old(self).skipped)
                    &&& final(self).errors == bump(old(self).errors)
                },
            },
    {
        self.changed = self.changed || result.changed;
        match result.outcome {
            Outcome::Updated(d) => diff_map_insert(&mut self.updated.inner, name, d),
            Outcome::UpToDate => self.up_to_date = self.up_to_date.saturating_add(1),
            Outcome::Skipped => self.skipped = self.skipped.saturating_add(1),
            Outcome::Failed(f) => {
                self.skipped = self.skipped.saturating_add(1);
                self.errors = self.errors.saturating_add(1);
                self.failures.push((name, f));
            },
        }
    }
}

impl UpdateArgs {
    /// Whether the run reconciles the source `name`: every source when no
    /// names are given, else the named ones.
    pub open spec fn selected(&self, name: Seq<char>) -> bool {
        self.source_names@.len() == 0 || exists|i: int|
            0 <= i < self.source_names@.len() && self.source_names@[i]@ == name
    }

    pub fn selects(&self, name: &str) -> (r: bool)
        ensures
            r == self.selected(name@),
    {
        if self.source_names.len() == 0 {
            return true;
        }
        let mut i: usize = 0;
        while i < self.source_names.len()
            invariant
                i <= self.source_names@.len(),
                forall|j: int| 0 <= j < i ==> self.source_names@[j]@ != name@,
            decreases self.source_names.len() - i,
        {
            if crate::text::str_eq(self.source_names[i].as_str(), name) {
                return true;
            }
            i += 1;
        }
        false
    }

    /// Pinning or unpinning with no names given would touch every source: that
    /// is refused unless forced.
    pub fn pin_needs_force(&self) -> (r: bool)
        ensures
            r == ((self.pin.pin || self.pin.unpin) && self.source_names@.len() == 0 && !self.force),
    {
        (self.pin.pin || self.pin.unpin) && self.source_names.len() == 0 && !self.force
    }
}

/// An outcome as the laws of the engine see it.
pub enum OutcomeView {
    Updated(Seq<char>, Seq<char>),
    UpToDate,
    Skipped,
    Failed,
}

/// A step as the laws of the engine see it.
pub enum StepView {
    Done(OutcomeView, bool),
    ListTags(Seq<char>),
    ListBranches(Seq<char>),
    Fetch(Seq<char>, bool, Seq<char>),
    Abort,
}

impl View for Outcome {
    type V = OutcomeView;

    open spec fn view(&self) -> OutcomeView {
        match self {
            Outcome::Updated(d) => OutcomeView::Updated(d.old@, d.new@),
            Outcome::UpToDate => OutcomeView::UpToDate,
            Outcome::Skipped => OutcomeView::Skipped,
            Outcome::Failed(_) => OutcomeView::Failed,
        }
    }
}

impl View for Step {
    type V = StepView;

    open spec fn view(&self) -> StepView {
        match self {
            Step::Done(r) => StepView::Done(r.outcome@, r.changed),
            Step::List(RemoteQuery::Tags { repo_url }) => StepView::ListTags(repo_url@),
            Step::List(RemoteQuery::Branches { repo_url }) => StepView::ListBranches(repo_url@),
            Step::Fetch(f) => StepView::Fetch(f.url@, f.unpack, f.candidate@),
            Step::Abort(_) => StepView::Abort,
        }
    }
}

/// What happens to a source once its candidate `c` is known: it is up to date
/// when it follows a repository, no refetch is asked for and `c` was checked
/// before; else the artifact URL for `c` is fetched, and a template that does
/// not give a URL stops the run.
pub open spec fn after_candidate_spec(s: SourceView, refetch: bool, c: Seq<char>) -> StepView {
    if !(s.update_scheme is Static) && !refetch && s.latest_checked_version == c {
        StepView::Done(OutcomeView::UpToDate, false)
    } else {
        match url_parse_of(expanded_url(s.artifact_url_template, s.update_scheme, c)) {
            None => StepView::Abort,
            Some(u) => StepView::Fetch(u.0, scheme_unpack(s.update_scheme), c),
        }
    }
}

/// The first step for a source: its new value and what comes next.
pub open spec fn start_spec(s: SourceView, a: UpdateArgs) -> (SourceView, StepView) {
    if a.pin.pin {
        if s.pinned {
            (s, StepView::Done(OutcomeView::UpToDate, false))
        } else {
            (SourceView { pinned: true, ..s }, StepView::Done(OutcomeView::Updated(s.version, s.version), true))
        }
    } else if a.pin.unpin {
        if !s.pinned {
            (s, StepView::Done(OutcomeView::UpToDate, false))
        } else {
            (SourceView { pinned: false, ..s }, StepView::Done(OutcomeView::Updated(s.version, s.version), true))
        }
    } else if s.pinned && !a.force {
        (s, StepView::Done(OutcomeView::Skipped, false))
    } else {
        (s, match s.update_scheme {
            VersionUpdateScheme::Static { .. } => after_candidate_spec(s, a.refetch, s.version),
            VersionUpdateScheme::GitTags { repo_url, .. } => match resolved_repo(repo_url, s.artifact_url_template) {
                None => StepView::Done(OutcomeView::Failed, false),
                Some(u) => StepView::ListTags(u),
            },
            VersionUpdateScheme::GitBranch { repo_url, .. } => match resolved_repo(repo_url, s.artifact_url_template) {
                None => StepView::Done(OutcomeView::Failed, false),
                Some(u) => StepView::ListBranches(u),
            },
        })
    }
}

/// The step after a listing of remote refs (`None`: listing failed). No
/// usable tag skips the source with an error; a missing branch, or a failed
/// listing, stops the run.
pub open spec fn on_listing_spec(s: SourceView, refetch: bool, listing: Option<Seq<char>>) -> StepView {
    if s.update_scheme is Static {
        after_candidate_spec(s, refetch, s.version)
    } else {
        match listing {
            None => StepView::Abort,
            Some(out) => match candidate_spec(s.update_scheme, s.version, out) {
                Some(c) => after_candidate_spec(s, refetch, c),
                None => if s.update_scheme is GitTags {
                    StepView::Done(OutcomeView::Failed, false)
                } else {
                    StepView::Abort
                },
            },
        }
    }
}

/// What a hash fetch gave, as the laws of the engine see it.
pub enum FetchView {
    Hash(Seq<char>),
    PrefetchFailed,
    OtherFailure,
}

pub open spec fn fetch_view(r: Result<String, GetArtifactHashError>) -> FetchView {
    match r {
        Ok(h) => FetchView::Hash(h@),
        Err(GetArtifactHashError::PrefetchFailed { .. }) => FetchView::PrefetchFailed,
        Err(_) => FetchView::OtherFailure,
    }
}

/// A source after the fetch of the hash for candidate `c`, and its outcome.
/// On success the version and hash move together; a failed prefetch only
/// records `c` as checked; any other failure leaves the source as it was.
pub open spec fn on_fetched_spec(s: SourceView, c: Seq<char>, f: FetchView) -> (SourceView, OutcomeView) {
    match f {
        FetchView::Hash(h) => if s.version != c {
            (SourceView { version: c, hash: h, latest_checked_version: c, ..s }, OutcomeView::Updated(s.version, c))
        } else if s.hash != h {
            (SourceView { hash: h, latest_checked_version: c, ..s }, OutcomeView::Updated(s.version, c))
        } else {
            (SourceView { latest_checked_version: c, ..s }, OutcomeView::UpToDate)
        },
        FetchView::PrefetchFailed => (SourceView { latest_checked_version: c, ..s }, OutcomeView::Failed),
        FetchView::OtherFailure => (s, OutcomeView::Failed),
    }
}

fn done(outcome: Outcome, changed: bool) -> (r: Step)
    ensures
        r == Step::Done(SourceResult { outcome, changed }),
{
    Step::Done(SourceResult { outcome, changed })
}

/// The step once the candidate `candidate` is known.
fn after_candidate(source: &Source, refetch: bool, candidate: String) -> (r: Step)
    ensures
        r@ == after_candidate_spec(source@, refetch, candidate@),
        r matches Step::Abort(a) ==> a is BuildUrl,
        r matches Step::Done(res) ==> res.outcome is UpToDate,
{
    if !source.update_scheme.is_static() && !refetch && source.latest_checked_version == candidate {
        return done(Outcome::UpToDate, false);
    }
    match source.full_url(candidate.as_str()) {
        Ok(u) => Step::Fetch(FetchRequest { url: u.text, unpack: source.update_scheme.unpack(), candidate }),
        Err(e) => Step::Abort(UpdateAbort::BuildUrl(e)),
    }
}

/// Begins the reconciliation of one selected source: toggles pinning where
/// asked (and does nothing else), skips a pinned source unless forced, and
/// otherwise starts resolving its candidate version.
pub fn start_source(source: &mut Source, args: &UpdateArgs) -> (r: Step)
    ensures
        (final(source)@, r@) == start_spec(old(source)@, *args),
        r matches Step::Done(res) ==> res.changed == (final(source)@ != old(source)@),
        !(r is Done) ==> final(source)@ == old(source)@,
        final(source).version == old(source).version,
        final(source).hash == old(source).hash,
        final(source).latest_checked_version == old(source).latest_checked_version,
        old(source).pinned && !args.force && !args.pin.unpin ==> final(source)@ == old(source)@,
{
    if args.pin.pin {
        if source.pinned {
            return done(Outcome::UpToDate, false);
        }
        source.pinned = true;
        let diff = VersionDiff::new(source.version.clone(), source.version.clone());
        return done(Outcome::Updated(diff), true);
    }
    if args.pin.unpin {
        if !source.pinned {
            return done(Outcome::UpToDate, false);
        }
        source.pinned = false;
        let diff = VersionDiff::new(source.version.clone(), source.version.clone());
        return done(Outcome::Updated(diff), true);
    }
    if source.pinned && !args.force {
        return done(Outcome::Skipped, false);
    }
    match source.update_scheme.remote_query_for(source) {
        Ok(Some(q)) => Step::List(q),
        Ok(None) => {
            let candidate = source.version.clone();
            after_candidate(source, args.refetch, candidate)
        },
        Err(e) => done(Outcome::Failed(SourceFailure::Resolve(e)), false),
    }
}

/// Takes the listing of remote refs that `start_source` asked for.
pub fn on_listing(source: &Source, args: &UpdateArgs, listing: Result<String, ListingFailure>) -> (r: Step)
    ensures
        r@ == on_listing_spec(
            source@,
            args.refetch,
            match listing {
                Ok(out) => Some(out@),
                Err(_) => None,
            },
        ),
        r matches Step::Abort(UpdateAbort::Resolve(e)) ==> !e.recoverable(),
        r matches Step::Done(res) ==> !res.changed,
        r matches Step::Done(SourceResult { outcome: Outcome::Failed(SourceFailure::Resolve(e)), .. })
            ==> e.recoverable(),
{
    match source.update_scheme.get_new_version_for(source, listing) {
        Ok(candidate) => after_candidate(source, args.refetch, candidate),
        Err(e) => if e.is_recoverable() {
            done(Outcome::Failed(SourceFailure::Resolve(e)), false)
        } else {
            Step::Abort(UpdateAbort::Resolve(e))
        },
    }
}

/// Takes the result of hashing the artifact of `candidate`.
pub fn on_fetched(source: &mut Source, candidate: &str, fetched: Result<String, GetArtifactHashError>) -> (r: SourceResult)
    ensures
        (final(source)@, r.outcome@) == on_fetched_spec(old(source)@, candidate@, fetch_view(fetched)),
        r.changed == (final(source)@ != old(source)@),
        final(source)@.version != old(source)@.version ==> (fetched matches Ok(h) && final(source)@.hash
            == h@ && final(source)@.version == candidate@),
        fetched matches Err(GetArtifactHashError::PrefetchFailed { .. }) ==> {
            &&& final(source)@.version == old(source)@.version
            &&& final(source)@.hash == old(source)@.hash
            &&& final(source)@.latest_checked_version == candidate@
        },
        fetched matches Err(e) ==> r.outcome == Outcome::Failed(SourceFailure::Prefetch(e)),
{
    let ghost s0 = source@;
    match fetched {
        Ok(hash) => {
            let checked_changed = !str_eq(source.latest_checked_version.as_str(), candidate);
            let outcome = if !str_eq(source.version.as_str(), candidate) {
                let diff = VersionDiff::new(source.version.clone(), candidate.to_owned());
                source.hash = hash;
                source.version = candidate.to_owned();
                Outcome::Updated(diff)
            } else if source.hash != hash {
                let diff = VersionDiff::new(source.version.clone(), candidate.to_owned());
                source.hash = hash;
                Outcome::Updated(diff)
            } else {
                Outcome::UpToDate
            };
            source.latest_checked_version = candidate.to_owned();
            let changed = checked_changed || matches!(outcome, Outcome::Updated(_));
            proof {
                if !changed {
                    assert(source@ =~= s0);
                }
            }
            SourceResult { outcome, changed }
        },
        Err(e) => match e {
            GetArtifactHashError::PrefetchFailed { .. } => {
                let changed = !str_eq(source.latest_checked_version.as_str(), candidate);
                source.latest_checked_version = candidate.to_owned();
                proof {
                    if !changed {
                        assert(source@ =~= s0);
                    }
                }
                SourceResult { outcome: Outcome::Failed(SourceFailure::Prefetch(e)), changed }
            },
            _ => SourceResult { outcome: Outcome::Failed(SourceFailure::Prefetch(e)), changed: false },
        },
    }
}

/// The first steps of a reconciliation, up to the fetch of a hash: the source
/// afterwards and the step reached, against a remote side given as what each
/// repository's tag listing and branch listing hold (`None`: the listing
/// fails).
pub open spec fn listed_spec(
    s: SourceView,
    a: UpdateArgs,
    tags: spec_fn(Seq<char>) -> Option<Seq<char>>,
    branches: spec_fn(Seq<char>) -> Option<Seq<char>>,
) -> (SourceView, StepView) {
    let (s1, st) = start_spec(s, a);
    match st {
        StepView::ListTags(u) => (s1, on_listing_spec(s1, a.refetch, tags(u))),
        StepView::ListBranches(u) => (s1, on_listing_spec(s1, a.refetch, branches(u))),
        _ => (s1, st),
    }
}

/// One whole reconciliation of a source, where hashing each artifact gives
/// what `fetch` says: the source afterwards and its last step.
pub open spec fn pass_spec(
    s: SourceView,
    a: UpdateArgs,
    tags: spec_fn(Seq<char>) -> Option<Seq<char>>,
    branches: spec_fn(Seq<char>) -> Option<Seq<char>>,
    fetch: spec_fn(Seq<char>, bool) -> FetchView,
) -> (SourceView, StepView) {
    let (s1, st) = listed_spec(s, a, tags, branches);
    match st {
        StepView::Fetch(url, unpack, c) => {
            let (s2, o) = on_fetched_spec(s1, c, fetch(url, unpack));
            (s2, StepView::Done(o, s2 != s1))
        },
        _ => (s1, st),
    }
}

/// Pinning: a pinned source, when the run is not forced and does not unpin,
/// comes out of a reconciliation unchanged.
pub proof fn lemma_pinned_source_unchanged(
    s: SourceView,
    a: UpdateArgs,
    tags: spec_fn(Seq<char>) -> Option<Seq<char>>,
    branches: spec_fn(Seq<char>) -> Option<Seq<char>>,
    fetch: spec_fn(Seq<char>, bool) -> FetchView,
)
    requires
        s.pinned,
        !a.force,
        !a.pin.unpin,
    ensures
        pass_spec(s, a, tags, branches, fetch).0 == s,
{
}

/// Version and hash move together: a reconciliation changes the version or
/// the hash only by a successful fetch for the candidate, and then sets both
/// from it; a failed prefetch leaves both as they were and records the
/// candidate as checked.
pub proof fn lemma_version_moves_with_hash(
    s: SourceView,
    a: UpdateArgs,
    tags: spec_fn(Seq<char>) -> Option<Seq<char>>,
    branches: spec_fn(Seq<char>) -> Option<Seq<char>>,
    fetch: spec_fn(Seq<char>, bool) -> FetchView,
)
    ensures
        ({
            let after = pass_spec(s, a, tags, branches, fetch).0;
            (after.version != s.version || after.hash != s.hash) ==> (listed_spec(
                s,
                a,
                tags,
                branches,
            ).1 matches StepView::Fetch(url, unpack, c) && fetch(url, unpack) == FetchView::Hash(
                after.hash,
            ) && after.version == c)
        }),
        ({
            let after = pass_spec(s, a, tags, branches, fetch).0;
            listed_spec(s, a, tags, branches).1 matches StepView::Fetch(url, unpack, c) ==> (fetch(
                url,
                unpack,
            ) is PrefetchFailed ==> (after.version == s.version && after.hash == s.hash
                && after.latest_checked_version == c))
        }),
{
}

/// A last step that updated the source or found it up to date.
pub open spec fn settled(st: StepView) -> bool {
    st matches StepView::Done(o, _) && (o is Updated || o is UpToDate)
}

/// Idempotence: where a reconciliation updated a source or found it up to
/// date, a second one with the same options and nothing changed on the
/// remote side finds it up to date and changes nothing.
pub proof fn lemma_reconcile_idempotent(
    s: SourceView,
    a: UpdateArgs,
    tags: spec_fn(Seq<char>) -> Option<Seq<char>>,
    branches: spec_fn(Seq<char>) -> Option<Seq<char>>,
    fetch: spec_fn(Seq<char>, bool) -> FetchView,
)
    requires
        settled(pass_spec(s, a, tags, branches, fetch).1),
    ensures
        pass_spec(pass_spec(s, a, tags, branches, fetch).0, a, tags, branches, fetch) == (
            pass_spec(s, a, tags, branches, fetch).0,
            StepView::Done(OutcomeView::UpToDate, false),
        ),
{
    let s1 = pass_spec(s, a, tags, branches, fetch).0;
    assert(s1.update_scheme == s.update_scheme);
    assert(s1.artifact_url_template == s.artifact_url_template);
}

/// A whole run over the entries of a lockfile: each selected source goes
/// through one reconciliation, the others stay as they are.
pub open spec fn run_spec(
    m: Seq<(Seq<char>, SourceView)>,
    a: UpdateArgs,
    tags: spec_fn(Seq<char>) -> Option<Seq<char>>,
    branches: spec_fn(Seq<char>) -> Option<Seq<char>>,
    fetch: spec_fn(Seq<char>, bool) -> FetchView,
) -> Seq<(Seq<char>, SourceView)> {
    m.map_values(
        |e: (Seq<char>, SourceView)|
            if a.selected(e.0) {
                (e.0, pass_spec(e.1, a, tags, branches, fetch).0)
            } else {
                e
            },
    )
}

/// Whether a run records a change, and so writes the lockfile.
pub open spec fn run_changes(
    m: Seq<(Seq<char>, SourceView)>,
    a: UpdateArgs,
    tags: spec_fn(Seq<char>) -> Option<Seq<char>>,
    branches: spec_fn(Seq<char>) -> Option<Seq<char>>,
    fetch: spec_fn(Seq<char>, bool) -> FetchView,
) -> bool {
    exists|i: int|
        0 <= i < m.len() && a.selected(m[i].0) && (#[trigger] pass_spec(m[i].1, a, tags, branches, fetch)).1
            matches StepView::Done(_, true)
}

/// Idempotence of a run: where every selected source of a first run was
/// updated or found up to date, a second run with the same options and
/// nothing changed on the remote side finds every selected source up to
/// date, changes no entry and writes nothing.
pub proof fn lemma_run_idempotent(
    m: Seq<(Seq<char>, SourceView)>,
    a: UpdateArgs,
    tags: spec_fn(Seq<char>) -> Option<Seq<char>>,
    branches: spec_fn(Seq<char>) -> Option<Seq<char>>,
    fetch: spec_fn(Seq<char>, bool) -> FetchView,
)
    requires
        forall|i: int|
            0 <= i < m.len() && a.selected(m[i].0) ==> settled(
                #[trigger] pass_spec(m[i].1, a, tags, branches, fetch).1,
            ),
    ensures
        run_spec(run_spec(m, a, tags, branches, fetch), a, tags, branches, fetch) == run_spec(
            m,
            a,
            tags,
            branches,
            fetch,
        ),
        !run_changes(run_spec(m, a, tags, branches, fetch), a, tags, branches, fetch),
        forall|i: int|
            0 <= i < m.len() && a.selected(m[i].0) ==> (#[trigger] pass_spec(
                run_spec(m, a, tags, branches, fetch)[i].1,
                a,
                tags,
                branches,
                fetch,
            )).1 == StepView::Done(OutcomeView::UpToDate, false),
{
    let m1 = run_spec(m, a, tags, branches, fetch);
    assert forall|i: int| 0 <= i < m.len() && a.selected(m[i].0) implies pass_spec(
        m1[i].1,
        a,
        tags,
        branches,
        fetch,
    ) == (m1[i].1, StepView::Done(OutcomeView::UpToDate, false)) by {
        lemma_reconcile_idempotent(m[i].1, a, tags, branches, fetch);
    }
    assert(run_spec(m1, a, tags, branches, fetch) =~= m1);
    assert forall|i: int| 0 <= i < m1.len() && a.selected(m1[i].0) implies !(pass_spec(
        m1[i].1,
        a,
        tags,
        branches,
        fetch,
    ).1 matches StepView::Done(_, true)) by {
        assert(m1[i].0 == m[i].0);
    }
}

} // verus!
