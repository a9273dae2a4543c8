//! The lockfile's data model: sources and the map of them by name.
use crate::text::{replace_spec, replace_str, str_eq};
use crate::updater::VersionUpdateScheme;
use crate::weburl::{url_parse_of, ParsedUrl};
use vstd::prelude::*;

verus! {

/// One tracked artifact.
#[derive(Debug)]
pub struct Source {
    pub version: String,
    pub hash: String,
    pub latest_checked_version: String,
    pub artifact_url_template: String,
    pub pinned: bool,
    pub update_scheme: VersionUpdateScheme,
}

/// A source with its strings seen as character sequences.
pub struct SourceView {
    pub version: Seq<char>,
    pub hash: Seq<char>,
    pub latest_checked_version: Seq<char>,
    pub artifact_url_template: Seq<char>,
    pub pinned: bool,
    pub update_scheme: VersionUpdateScheme,
}

impl View for Source {
    type V = SourceView;

    open spec fn view(&self) -> SourceView {
        SourceView {
            version: self.version@,
            hash: self.hash@,
            latest_checked_version: self.latest_checked_version@,
            artifact_url_template: self.artifact_url_template@,
            pinned: self.pinned,
            update_scheme: self.update_scheme,
        }
    }
}

/// Why the artifact URL of a source could not be built.
#[derive(Debug)]
pub struct BuildFullUrlError {
    pub full_url: String,
    pub parse_error: String,
}

/// The artifact URL template with `version` (and, for a branch source, the
/// branch) put in its placeholders.
pub open spec fn expanded_url(template: Seq<char>, scheme: VersionUpdateScheme, version: Seq<char>) -> Seq<char> {
    let with_version = replace_spec(template, "{version}"@, version);
    match scheme {
        VersionUpdateScheme::GitBranch { branch, .. } => replace_spec(with_version, "{branch}"@, branch@),
        _ => with_version,
    }
}

/// The full URL of a source's artifact at `version`: `Ok` exactly when the
/// expanded template is a URL.
pub open spec fn full_url_spec(s: SourceView, version: Seq<char>, r: Result<ParsedUrl, BuildFullUrlError>) -> bool {
    let expanded = expanded_url(s.artifact_url_template, s.update_scheme, version);
    match url_parse_of(expanded) {
        Some(u) => r matches Ok(p) && p@ == u,
        None => r matches Err(e) && e.full_url@ == expanded,
    }
}

impl Source {
    /// A new unpinned source with no hash yet, last checked at `version`.
    pub fn new(version: &str, artifact_url_template: &str, update_scheme: VersionUpdateScheme) -> (r: Source)
        ensures
            r@ == (SourceView {
                version: version@,
                hash: Seq::empty(),
                latest_checked_version: version@,
                artifact_url_template: artifact_url_template@,
                pinned: false,
                update_scheme,
            }),
    {
        Source {
            version: version.to_owned(),
            latest_checked_version: version.to_owned(),
            artifact_url_template: artifact_url_template.to_owned(),
            hash: String::new(),
            pinned: false,
            update_scheme,
        }
    }

    pub fn with_pinned(self, pinned: bool) -> (r: Source)
        ensures
            r@ == (SourceView { pinned, ..self@ }),
    {
        Source { pinned, ..self }
    }

    /// The artifact URL for `version`.
    pub fn full_url(&self, version: &str) -> (r: Result<ParsedUrl, BuildFullUrlError>)
        ensures
            full_url_spec(self@, version@, r),
    {
        proof {
            reveal_strlit("{version}");
            reveal_strlit("{branch}");
        }
        let full_url = replace_str(self.artifact_url_template.as_str(), "{version}", version);
        let full_url = match &self.update_scheme {
            VersionUpdateScheme::GitBranch { branch, .. } => replace_str(full_url.as_str(), "{branch}", branch.as_str()),
            _ => full_url,
        };
        match ParsedUrl::parse(full_url.as_str()) {
            Ok(u) => Ok(u),
            Err(parse_error) => Err(BuildFullUrlError { full_url, parse_error }),
        }
    }
}

/// The sources of a lockfile, by name, in the order they are kept.
///
/// The entries are a `Vec` with unique names (`wf`) rather than a
/// `BTreeMap<String, Source>`: vstd specifies a `BTreeMap`'s contents only
/// for keys shown to obey its `Ord` model, which it shows for integers and
/// not for `String`, while a `Vec` of entries has an exact view. A lockfile is read
/// and written in key order, so the order kept here is that order plus
/// additions at the end.
#[derive(Debug)]
pub struct SourceMap {
    pub inner: Vec<(String, Source)>,
}

/// Names in the entries are unique.
pub open spec fn names_unique(s: Seq<(Seq<char>, SourceView)>) -> bool {
    forall|i: int, j: int| 0 <= i < j < s.len() ==> s[i].0 != s[j].0
}

/// Whether some entry is called `name`.
pub open spec fn has_name(s: Seq<(Seq<char>, SourceView)>, name: Seq<char>) -> bool {
    exists|i: int| 0 <= i < s.len() && s[i].0 == name
}

impl View for SourceMap {
    type V = Seq<(Seq<char>, SourceView)>;

    open spec fn view(&self) -> Self::V {
        self.inner@.map_values(|e: (String, Source)| (e.0@, e.1@))
    }
}

impl SourceMap {
    pub open spec fn wf(&self) -> bool {
        names_unique(self@)
    }

    /// An empty map.
    pub fn new() -> (r: SourceMap)
        ensures
            r@ == Seq::<(Seq<char>, SourceView)>::empty(),
            r.wf(),
    {
        SourceMap { inner: Vec::new() }
    }

    pub fn len(&self) -> (r: usize)
        ensures
            r == self@.len(),
    {
        self.inner.len()
    }

    /// The position of the source called `name`, if there is one.
    pub fn position(&self, name: &str) -> (r: Option<usize>)
        ensures
            match r {
                Some(i) => i < self@.len() && self@[i as int].0 == name@,
                None => !has_name(self@, name@),
            },
    {
        let mut i: usize = 0;
        while i < self.inner.len()
            invariant
                i <= self@.len(),
                self@.len() == self.inner@.len(),
                forall|j: int| 0 <= j < i ==> self@[j].0 != name@,
            decreases self.inner.len() - i,
        {
            if str_eq(self.inner[i].0.as_str(), name) {
                return Some(i);
            }
            i += 1;
        }
        None
    }

    /// Adds a source under a new name; a name already there is refused and the
    /// map left as it was.
    pub fn insert_new(&mut self, name: String, source: Source) -> (r: bool)
        requires
            old(self).wf(),
        ensures
            r == !has_name(old(self)@, name@),
            r ==> final(self)@ == old(self)@.push((name@, source@)),
            !r ==> final(self)@ == old(self)@,
            final(self).wf(),
    {
        if self.contains_key(name.as_str()) {
            return false;
        }
        let ghost before = self@;
        self.inner.push((name, source));
        proof {
            assert(self@ =~= before.push((name@, source@)));
            assert forall|i: int, j: int| 0 <= i < j < self@.len() implies self@[i].0 != self@[j].0 by {
                if j == before.len() {
                    assert(before[i].0 == self@[i].0);
                }
            }
        }
        true
    }

    pub fn contains_key(&self, name: &str) -> (r: bool)
        ensures
            r == has_name(self@, name@),
    {
        self.position(name).is_some()
    }
}

/// Why a lockfile could not be loaded.
#[derive(Debug)]
pub enum SourceMapFromFileJsonError {
    NotFound,
    PermissionDenied,
    /// Not JSON, at this line and column.
    MalformedJson { line: usize, column: usize },
    /// JSON, but not a lockfile, at this line and column.
    IncorrectSchema { line: usize, column: usize },
    Io(String),
}

/// Why a lockfile could not be written.
#[derive(Debug)]
pub enum SourceMapWriteToFileError {
    PermissionDenied,
    Io(String),
    SerdeWriteError(String),
}

/// Why the hash of an artifact could not be had.
#[derive(Debug)]
pub enum GetArtifactHashError {
    /// The hashing tool could not be run.
    CommandFailed { full_command: String, io_error: String },
    /// The tool ran and could not fetch the artifact: most often the
    /// candidate version has no published artifact.
    PrefetchFailed { url: String },
    /// The tool's answer is not the JSON it promises.
    MalformedOrIncorrectJson { line: usize, column: usize, response: Vec<u8> },
    /// Reading the tool's answer failed.
    SerdeIoError(String),
}

} // verus!
