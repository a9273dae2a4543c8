//! The add engine: from the arguments of a new source, its name, its initial
//! version and the source itself.
use crate::source::{
    expanded_url, has_name, BuildFullUrlError, GetArtifactHashError, Source, SourceMap, SourceView,
};
use crate::update::FetchRequest;
use crate::text::{chars_of, concat_strs, slice_chars, string_of, opt_view};
use crate::updater::{
    branch_commit, branch_version, branch_version_spec, fetch_git_branch_commit, infer_git_url,
    inferred_git_url, fetch_latest_git_tag, latest_tag_version, prefix_of, FetchGitBranchCommitError,
    FetchLatestGitTagError, InferGitUrlError, ListingFailure, RemoteQuery, VersionUpdateScheme,
    scheme_unpack, tag_listing_error, branch_listing_error, infer_git_url_spec,
};
use crate::weburl::{path_segments_spec, url_parse_of, ParsedUrl};
use vstd::prelude::*;

verus! {

/// Where a followed branch is hosted; it decides the shape of the archive URL.
#[derive(Debug, Clone, Copy, PartialEq, Eq, Structural)]
pub enum GitBranchProvider {
    Github,
    Gitlab,
    Gitea,
}

/// The scheme of a new source and its parameters.
#[allow(inconsistent_fields)]
#[derive(Debug)]
pub enum UpdateSchemeArg {
    GitTags {
        artifact_url: String,
        version: Option<String>,
        source_name: Option<String>,
        git_repo: Option<String>,
        tag_prefix: Option<String>,
        unpack: bool,
    },
    GitBranch {
        repository: String,
        branch: String,
        source_name: Option<String>,
        short_hash_len: Option<usize>,
        artifact_url: Option<String>,
        provider: Option<GitBranchProvider>,
    },
    Static { source_name: String, artifact_url: String, version: String, unpack: bool },
}

/// The arguments of a new source.
#[derive(Debug)]
pub struct AddArgs {
    /// A hash to record instead of fetching one.
    pub force_hash: Option<String>,
    pub pinned: bool,
    pub update_scheme: UpdateSchemeArg,
}

/// Accepts an artifact URL template that parses as a URL.
pub fn validate_artifact_url(s: &str) -> (r: Result<String, String>)
    ensures
        r is Ok <==> url_parse_of(s@) is Some,
        r matches Ok(t) ==> t@ == s@,
{
    match ParsedUrl::parse(s) {
        Ok(_) => Ok(s.to_owned()),
        Err(e) => Err(e),
    }
}

pub open spec fn has_suffix(s: Seq<char>, x: Seq<char>) -> bool {
    x.len() <= s.len() && s.subrange(s.len() - x.len(), s.len() as int) == x
}

/// `s` with every trailing `.git` taken off, as `trim_end_matches(".git")` does.
pub open spec fn trim_git(s: Seq<char>) -> Seq<char>
    decreases s.len(),
{
    if s.len() >= 4 && has_suffix(s, ".git"@) {
        trim_git(s.subrange(0, s.len() - 4))
    } else {
        s
    }
}

fn trim_git_exec(s: &str) -> (r: String)
    ensures
        r@ == trim_git(s@),
{
    let v = chars_of(s);
    let mut n: usize = v.len();
    proof {
        assert(v@.subrange(0, n as int) =~= v@);
    }
    while n >= 4 && v[n - 4] == '.' && v[n - 3] == 'g' && v[n - 2] == 'i' && v[n - 1] == 't'
        invariant
            n <= v@.len(),
            trim_git(v@) == trim_git(v@.subrange(0, n as int)),
        decreases n,
    {
        proof {
            reveal_strlit(".git");
            let t = v@.subrange(0, n as int);
            assert(t.subrange(t.len() - 4, t.len() as int) =~= ".git"@);
            assert(t.subrange(0, t.len() - 4) =~= v@.subrange(0, n - 4));
        }
        n -= 4;
    }
    proof {
        reveal_strlit(".git");
        let t = v@.subrange(0, n as int);
        if t.len() >= 4 && has_suffix(t, ".git"@) {
            assert(t[t.len() - 4] == t.subrange(t.len() - 4, t.len() as int)[0]);
            assert(t[t.len() - 3] == t.subrange(t.len() - 4, t.len() as int)[1]);
            assert(t[t.len() - 2] == t.subrange(t.len() - 4, t.len() as int)[2]);
            assert(t[t.len() - 1] == t.subrange(t.len() - 4, t.len() as int)[3]);
        }
    }
    let t = slice_chars(&v, 0, n);
    string_of(t.as_slice())
}

/// The last segment of a URL path.
pub open spec fn last_segment(path: Seq<char>) -> Option<Seq<char>> {
    match path_segments_spec(path) {
        Some(segs) => Some(segs.last()),
        None => None,
    }
}

fn last_segment_exec(u: &ParsedUrl) -> (r: Option<String>)
    ensures
        opt_view(r) == last_segment(u.path@),
{
    match u.path_segments() {
        Some(segs) => {
            Some(string_of(segs[segs.len() - 1].as_slice()))
        },
        None => None,
    }
}

/// Why no name could be given to a new source.
#[derive(Debug)]
pub enum SourceNameError {
    GetGitUrlFailed(InferGitUrlError),
    /// The repository URL has no path segment to name the source after.
    NoRepositoryName,
}

/// The repository URL of a tag-following source, as parts: the explicit one,
/// else the one inferred from the artifact URL.
pub open spec fn tags_repo_url(git_repo: Option<String>, artifact_url: Seq<char>) -> Option<(Seq<char>, Option<Seq<char>>, Seq<char>)> {
    match git_repo {
        Some(g) => url_parse_of(g@),
        None => inferred_git_url(artifact_url),
    }
}

fn tags_repo_url_exec(git_repo: &Option<String>, artifact_url: &str) -> (r: Result<ParsedUrl, InferGitUrlError>)
    ensures
        match tags_repo_url(*git_repo, artifact_url@) {
            Some(u) => r matches Ok(p) && p@ == u,
            None => r is Err,
        },
        git_repo is None ==> infer_git_url_spec(artifact_url@, r),
        git_repo is Some ==> (r matches Err(e) ==> e is CouldNotParseUrlTemplate),
{
    match git_repo {
        Some(g) => match ParsedUrl::parse(g.as_str()) {
            Ok(u) => Ok(u),
            Err(e) => Err(InferGitUrlError::CouldNotParseUrlTemplate(e)),
        },
        None => infer_git_url(artifact_url),
    }
}

/// The name a new source gets: the explicit one, else the last path segment
/// of its repository URL (without `.git` for a branch source).
pub open spec fn source_name_spec(a: UpdateSchemeArg) -> Option<Seq<char>> {
    match a {
        UpdateSchemeArg::Static { source_name, .. } => Some(source_name@),
        UpdateSchemeArg::GitBranch { repository, source_name, .. } => match source_name {
            Some(n) => Some(n@),
            None => match url_parse_of(repository@) {
                Some(u) => match last_segment(u.2) {
                    Some(l) => Some(trim_git(l)),
                    None => None,
                },
                None => None,
            },
        },
        UpdateSchemeArg::GitTags { artifact_url, source_name, git_repo, .. } => match tags_repo_url(git_repo, artifact_url@) {
            None => None,
            Some(u) => match source_name {
                Some(n) => Some(n@),
                None => last_segment(u.2),
            },
        },
    }
}

/// Which error naming a new source gives where `source_name_spec` has no
/// name: no repository URL, or a repository URL with no path segment.
pub open spec fn source_name_error_spec(a: UpdateSchemeArg, e: SourceNameError) -> bool {
    match a {
        UpdateSchemeArg::Static { .. } => false,
        UpdateSchemeArg::GitBranch { repository, .. } => match url_parse_of(repository@) {
            None => e matches SourceNameError::GetGitUrlFailed(InferGitUrlError::CouldNotParseUrlTemplate(_)),
            Some(_) => e is NoRepositoryName,
        },
        UpdateSchemeArg::GitTags { artifact_url, git_repo, .. } => match tags_repo_url(git_repo, artifact_url@) {
            None => e matches SourceNameError::GetGitUrlFailed(g) && match git_repo {
                Some(_) => g is CouldNotParseUrlTemplate,
                None => infer_git_url_spec(artifact_url@, Err(g)),
            },
            Some(_) => e is NoRepositoryName,
        },
    }
}

pub fn build_source_name(update_scheme: &UpdateSchemeArg) -> (r: Result<String, SourceNameError>)
    ensures
        match source_name_spec(*update_scheme) {
            Some(n) => r matches Ok(s) && s@ == n,
            None => r matches Err(e) && source_name_error_spec(*update_scheme, e),
        },
{
    match update_scheme {
        UpdateSchemeArg::GitTags { artifact_url, source_name, git_repo, .. } => {
            let git_url = match tags_repo_url_exec(git_repo, artifact_url.as_str()) {
                Ok(u) => u,
                Err(e) => return Err(SourceNameError::GetGitUrlFailed(e)),
            };
            match source_name {
                Some(n) => Ok(n.clone()),
                None => match last_segment_exec(&git_url) {
                    Some(l) => Ok(l),
                    None => Err(SourceNameError::NoRepositoryName),
                },
            }
        },
        UpdateSchemeArg::GitBranch { repository, source_name, .. } => match source_name {
            Some(n) => Ok(n.clone()),
            None => {
                let u = match ParsedUrl::parse(repository.as_str()) {
                    Ok(u) => u,
                    Err(e) => return Err(SourceNameError::GetGitUrlFailed(InferGitUrlError::CouldNotParseUrlTemplate(e))),
                };
                match last_segment_exec(&u) {
                    Some(l) => Ok(trim_git_exec(l.as_str())),
                    None => Err(SourceNameError::NoRepositoryName),
                }
            },
        },
        UpdateSchemeArg::Static { source_name, .. } => Ok(source_name.clone()),
    }
}

/// Why no initial version could be had for a new source.
#[allow(inconsistent_fields)]
#[derive(Debug)]
pub enum InitialVersionError {
    GetGitUrl(InferGitUrlError),
    NoTagsFitPrefix(Option<String>),
    FetchTags { git_url: String, error: FetchLatestGitTagError },
    BranchNotFound(String),
    FetchBranchCommit { git_url: String, branch: String, error: FetchGitBranchCommitError },
}

/// The listing of remote refs that the initial version of a new source needs:
/// none where a version is given (or the source is static). A tag-following
/// source needs its repository URL even when its version is given.
pub open spec fn initial_query_spec(a: UpdateSchemeArg, r: Result<Option<RemoteQuery>, InitialVersionError>) -> bool {
    match a {
        UpdateSchemeArg::Static { .. } => r matches Ok(None),
        UpdateSchemeArg::GitBranch { repository, .. } => r matches Ok(Some(RemoteQuery::Branches { repo_url: u }))
            && u@ == repository@,
        UpdateSchemeArg::GitTags { artifact_url, version, git_repo, .. } => match tags_repo_url(git_repo, artifact_url@) {
            None => r matches Err(InitialVersionError::GetGitUrl(_)),
            Some(u) => match version {
                Some(_) => r matches Ok(None),
                None => r matches Ok(Some(RemoteQuery::Tags { repo_url: q })) && q@ == u.0,
            },
        },
    }
}

pub fn initial_version_query(update_scheme: &UpdateSchemeArg) -> (r: Result<Option<RemoteQuery>, InitialVersionError>)
    ensures
        initial_query_spec(*update_scheme, r),
{
    match update_scheme {
        UpdateSchemeArg::GitTags { artifact_url, version, git_repo, .. } => {
            let git_url = match tags_repo_url_exec(git_repo, artifact_url.as_str()) {
                Ok(u) => u,
                Err(e) => return Err(InitialVersionError::GetGitUrl(e)),
            };
            match version {
                Some(_) => Ok(None),
                None => Ok(Some(RemoteQuery::Tags { repo_url: git_url.text })),
            }
        },
        UpdateSchemeArg::GitBranch { repository, .. } => Ok(Some(RemoteQuery::Branches { repo_url: repository.clone() })),
        UpdateSchemeArg::Static { .. } => Ok(None),
    }
}

/// The short hash length in effect: the given one, else six.
pub open spec fn short_len(n: Option<usize>) -> usize {
    match n {
        Some(k) => k,
        None => 6,
    }
}

/// Whether a new source needs a listing of remote refs for its initial
/// version: `None` where its repository URL cannot be had.
pub open spec fn query_kind(a: UpdateSchemeArg) -> Option<bool> {
    match a {
        UpdateSchemeArg::Static { .. } => Some(false),
        UpdateSchemeArg::GitBranch { .. } => Some(true),
        UpdateSchemeArg::GitTags { artifact_url, version, git_repo, .. } => match tags_repo_url(git_repo, artifact_url@) {
            None => None,
            Some(_) => Some(version is None),
        },
    }
}

/// The initial version of a new source, from the listing that
/// `initial_version_query` asked for (ignored where it asked for none).
pub open spec fn initial_version_spec(
    a: UpdateSchemeArg,
    listing: Result<String, ListingFailure>,
    r: Result<String, InitialVersionError>,
) -> bool {
    match a {
        UpdateSchemeArg::Static { version, .. } => r matches Ok(v) && v@ == version@,
        UpdateSchemeArg::GitTags { artifact_url, version, git_repo, tag_prefix, .. } => match tags_repo_url(git_repo, artifact_url@) {
            None => r matches Err(InitialVersionError::GetGitUrl(_)),
            Some(u) => match version {
                Some(v0) => r matches Ok(v) && v@ == v0@,
                None => match listing {
                    Err(f) => r matches Err(InitialVersionError::FetchTags { git_url, error }) && git_url@
                        == u.0 && error == tag_listing_error(f),
                    Ok(out) => match latest_tag_version(out@, prefix_of(tag_prefix)) {
                        Some(t) => r matches Ok(v) && v@ == t,
                        None => r == Err::<String, InitialVersionError>(InitialVersionError::NoTagsFitPrefix(tag_prefix)),
                    },
                },
            },
        },
        UpdateSchemeArg::GitBranch { repository, branch, short_hash_len, .. } => match listing {
            Err(f) => r == Err::<String, InitialVersionError>(
                InitialVersionError::FetchBranchCommit { git_url: repository, branch, error: branch_listing_error(f) },
            ),
            Ok(out) => match branch_commit(out@, branch@) {
                Some(c) => r matches Ok(v) && v@ == branch_version_spec(branch@, c, short_len(short_hash_len) as nat),
                None => r matches Err(InitialVersionError::BranchNotFound(b)) && b@ == branch@,
            },
        },
    }
}

/// The initial version of a new source, where there is one.
pub open spec fn initial_version_of(a: UpdateSchemeArg, listing: Result<String, ListingFailure>) -> Option<Seq<char>> {
    match a {
        UpdateSchemeArg::Static { version, .. } => Some(version@),
        UpdateSchemeArg::GitTags { artifact_url, version, git_repo, tag_prefix, .. } => match tags_repo_url(git_repo, artifact_url@) {
            None => None,
            Some(_) => match version {
                Some(v) => Some(v@),
                None => match listing {
                    Err(_) => None,
                    Ok(out) => latest_tag_version(out@, prefix_of(tag_prefix)),
                },
            },
        },
        UpdateSchemeArg::GitBranch { branch, short_hash_len, .. } => match listing {
            Err(_) => None,
            Ok(out) => match branch_commit(out@, branch@) {
                Some(c) => Some(branch_version_spec(branch@, c, short_len(short_hash_len) as nat)),
                None => None,
            },
        },
    }
}

pub fn build_initial_version(update_scheme: &UpdateSchemeArg, listing: Result<String, ListingFailure>) -> (r: Result<String, InitialVersionError>)
    ensures
        initial_version_spec(*update_scheme, listing, r),
        match initial_version_of(*update_scheme, listing) {
            Some(v) => r matches Ok(s) && s@ == v,
            None => r is Err,
        },
{
    match update_scheme {
        UpdateSchemeArg::GitTags { artifact_url, version, git_repo, tag_prefix, .. } => {
            let git_url = match tags_repo_url_exec(git_repo, artifact_url.as_str()) {
                Ok(u) => u,
                Err(e) => return Err(InitialVersionError::GetGitUrl(e)),
            };
            if let Some(v) = version {
                return Ok(v.clone());
            }
            let found = match listing {
                Ok(out) => fetch_latest_git_tag(out.as_str(), tag_prefix),
                Err(ListingFailure::CommandFailed { full_command, io_error }) => Err(
                    FetchLatestGitTagError::CommandFailed { full_command, io_error },
                ),
                Err(ListingFailure::CommandOutputInvalidUtf8) => Err(FetchLatestGitTagError::CommandOutputInvalidUtf8),
            };
            match found {
                Ok(v) => Ok(v),
                Err(FetchLatestGitTagError::NoTagsFitFilter) => Err(InitialVersionError::NoTagsFitPrefix(tag_prefix.clone())),
                Err(error) => Err(InitialVersionError::FetchTags { git_url: git_url.text, error }),
            }
        },
        UpdateSchemeArg::GitBranch { repository, branch, short_hash_len, .. } => {
            let found = match listing {
                Ok(out) => fetch_git_branch_commit(out.as_str(), branch.as_str()),
                Err(ListingFailure::CommandFailed { full_command, io_error }) => Err(
                    FetchGitBranchCommitError::CommandFailed { full_command, io_error },
                ),
                Err(ListingFailure::CommandOutputInvalidUtf8) => Err(FetchGitBranchCommitError::CommandOutputInvalidUtf8),
            };
            match found {
                Ok(commit) => {
                    let n: usize = match short_hash_len {
                        Some(k) => *k,
                        None => 6,
                    };
                    Ok(branch_version(branch.as_str(), commit.as_str(), n))
                },
                Err(FetchGitBranchCommitError::BranchNotFound) => Err(InitialVersionError::BranchNotFound(branch.clone())),
                Err(error) => Err(InitialVersionError::FetchBranchCommit { git_url: repository.clone(), branch: branch.clone(), error }),
            }
        },
        UpdateSchemeArg::Static { version, .. } => Ok(version.clone()),
    }
}

/// Why a new source could not be built from its arguments.
#[derive(Debug)]
pub enum BuildSourceError {
    GitRepoUrlNoBase,
    GetRepositoryName,
    /// The repository of a branch source is not a URL.
    InvalidRepositoryUrl(String),
    /// An artifact URL and a provider were both given for a branch source.
    ConflictingArtifactUrl,
    /// A short hash of no characters was asked for.
    ZeroShortHashLength,
}

/// The provider a host name suggests.
pub open spec fn provider_for_host(host: Seq<char>) -> GitBranchProvider {
    if has_suffix(host, "github.com"@) {
        GitBranchProvider::Github
    } else if has_suffix(host, "gitlab.com"@) {
        GitBranchProvider::Gitlab
    } else {
        GitBranchProvider::Gitea
    }
}

/// The provider in effect: the given one, else the one the host suggests.
pub open spec fn effective_provider(
    u: (Seq<char>, Option<Seq<char>>, Seq<char>),
    provider: Option<GitBranchProvider>,
) -> Option<GitBranchProvider> {
    match provider {
        Some(p) => Some(p),
        None => match u.1 {
            Some(h) => Some(provider_for_host(h)),
            None => None,
        },
    }
}

/// The archive URL template of a branch of the repository `u` at provider `p`.
pub open spec fn archive_template(u: (Seq<char>, Option<Seq<char>>, Seq<char>), p: GitBranchProvider) -> Option<Seq<char>> {
    let base = trim_git(u.0);
    match p {
        GitBranchProvider::Gitlab => match last_segment(u.2) {
            Some(l) => Some(base + "/-/archive/{branch}/"@ + trim_git(l) + "-{branch}.tar.gz"@),
            None => None,
        },
        _ => Some(base + "/archive/{branch}.tar.gz"@),
    }
}

/// The archive URL template of a branch source: the given one, else the one
/// its provider gives.
pub open spec fn branch_template(
    u: (Seq<char>, Option<Seq<char>>, Seq<char>),
    artifact_url: Option<String>,
    provider: Option<GitBranchProvider>,
) -> Option<Seq<char>> {
    match artifact_url {
        Some(t) => Some(t@),
        None => match effective_provider(u, provider) {
            Some(p) => archive_template(u, p),
            None => None,
        },
    }
}

/// The new source for `a` at `version`, not pinned and with no hash yet:
/// `None` where it cannot be built.
pub open spec fn built_source(a: UpdateSchemeArg, version: Seq<char>) -> Option<SourceView> {
    match a {
        UpdateSchemeArg::GitTags { artifact_url, git_repo, tag_prefix, unpack, .. } => Some(
            SourceView {
                version,
                hash: Seq::empty(),
                latest_checked_version: version,
                artifact_url_template: artifact_url@,
                pinned: false,
                update_scheme: VersionUpdateScheme::GitTags { repo_url: git_repo, tag_prefix, unpack },
            },
        ),
        UpdateSchemeArg::Static { artifact_url, unpack, .. } => Some(
            SourceView {
                version,
                hash: Seq::empty(),
                latest_checked_version: version,
                artifact_url_template: artifact_url@,
                pinned: false,
                update_scheme: VersionUpdateScheme::Static { unpack },
            },
        ),
        UpdateSchemeArg::GitBranch { repository, branch, short_hash_len, artifact_url, provider, .. } => {
            if (artifact_url is Some && provider is Some) || short_hash_len == Some(0usize) {
                None
            } else {
                match url_parse_of(repository@) {
                    None => None,
                    Some(u) => match branch_template(u, artifact_url, provider) {
                        None => None,
                        Some(t) => Some(
                            SourceView {
                                version,
                                hash: Seq::empty(),
                                latest_checked_version: version,
                                artifact_url_template: t,
                                pinned: false,
                                update_scheme: VersionUpdateScheme::GitBranch {
                                    repo_url: Some(repository),
                                    branch,
                                    short_hash_length: short_len(short_hash_len),
                                },
                            },
                        ),
                    },
                }
            }
        },
    }
}

/// Building the source for `a` at `version`: the source `built_source` gives,
/// else the error for the first thing that stands in the way.
pub open spec fn build_source_spec(a: UpdateSchemeArg, version: Seq<char>, r: Result<Source, BuildSourceError>) -> bool {
    match built_source(a, version) {
        Some(sv) => r matches Ok(s) && s@ == sv,
        None => match a {
            UpdateSchemeArg::GitBranch { repository, short_hash_len, artifact_url, provider, .. } => if artifact_url is Some
                && provider is Some {
                r matches Err(BuildSourceError::ConflictingArtifactUrl)
            } else if short_hash_len == Some(0usize) {
                r matches Err(BuildSourceError::ZeroShortHashLength)
            } else {
                match url_parse_of(repository@) {
                    None => r matches Err(BuildSourceError::InvalidRepositoryUrl(_)),
                    Some(u) => if artifact_url is None && effective_provider(u, provider) is None {
                        r matches Err(BuildSourceError::GitRepoUrlNoBase)
                    } else {
                        r matches Err(BuildSourceError::GetRepositoryName)
                    },
                }
            },
            _ => false,
        },
    }
}

fn ends_with_str(s: &str, x: &str) -> (r: bool)
    ensures
        r == has_suffix(s@, x@),
{
    let v = chars_of(s);
    let w = chars_of(x);
    if w.len() > v.len() {
        return false;
    }
    let r = crate::text::starts_with_at(&v, v.len() - w.len(), &w);
    proof {
        let t = v@.subrange(v@.len() - w@.len(), v@.len() as int);
        assert(t.subrange(0, w@.len() as int) =~= t);
    }
    r
}

fn archive_template_exec(u: &ParsedUrl, p: GitBranchProvider) -> (r: Result<String, BuildSourceError>)
    ensures
        match archive_template(u@, p) {
            Some(t) => r matches Ok(s) && s@ == t,
            None => r matches Err(BuildSourceError::GetRepositoryName),
        },
{
    proof {
        reveal_strlit("/-/archive/{branch}/");
        reveal_strlit("-{branch}.tar.gz");
        reveal_strlit("/archive/{branch}.tar.gz");
    }
    let base = trim_git_exec(u.text.as_str());
    match p {
        GitBranchProvider::Gitlab => {
            let name = match last_segment_exec(u) {
                Some(l) => trim_git_exec(l.as_str()),
                None => return Err(BuildSourceError::GetRepositoryName),
            };
            let t = concat_strs(base.as_str(), "/-/archive/{branch}/");
            let t = concat_strs(t.as_str(), name.as_str());
            Ok(concat_strs(t.as_str(), "-{branch}.tar.gz"))
        },
        _ => Ok(concat_strs(base.as_str(), "/archive/{branch}.tar.gz")),
    }
}

pub fn build_source(update_scheme: &UpdateSchemeArg, version: &str) -> (r: Result<Source, BuildSourceError>)
    ensures
        build_source_spec(*update_scheme, version@, r),
{
    match update_scheme {
        UpdateSchemeArg::GitTags { artifact_url, git_repo, tag_prefix, unpack, .. } => {
            let scheme = VersionUpdateScheme::GitTags { repo_url: git_repo.clone(), tag_prefix: tag_prefix.clone(), unpack: *unpack };
            Ok(Source::new(version, artifact_url.as_str(), scheme))
        },
        UpdateSchemeArg::Static { artifact_url, unpack, .. } => {
            Ok(Source::new(version, artifact_url.as_str(), VersionUpdateScheme::Static { unpack: *unpack }))
        },
        UpdateSchemeArg::GitBranch { repository, branch, short_hash_len, artifact_url, provider, .. } => {
            if artifact_url.is_some() && provider.is_some() {
                return Err(BuildSourceError::ConflictingArtifactUrl);
            }
            if let Some(0) = short_hash_len {
                return Err(BuildSourceError::ZeroShortHashLength);
            }
            let u = match ParsedUrl::parse(repository.as_str()) {
                Ok(u) => u,
                Err(e) => return Err(BuildSourceError::InvalidRepositoryUrl(e)),
            };
            let template = match artifact_url {
                Some(t) => t.clone(),
                None => {
                    let p = match provider {
                        Some(p) => *p,
                        None => match &u.host {
                            None => return Err(BuildSourceError::GitRepoUrlNoBase),
                            Some(h) => {
                                proof {
                                    reveal_strlit("github.com");
                                    reveal_strlit("gitlab.com");
                                }
                                if ends_with_str(h.as_str(), "github.com") {
                                    GitBranchProvider::Github
                                } else if ends_with_str(h.as_str(), "gitlab.com") {
                                    GitBranchProvider::Gitlab
                                } else {
                                    GitBranchProvider::Gitea
                                }
                            },
                        },
                    };
                    match archive_template_exec(&u, p) {
                        Ok(t) => t,
                        Err(e) => return Err(e),
                    }
                },
            };
            let n: usize = match short_hash_len {
                Some(k) => *k,
                None => 6,
            };
            let scheme = VersionUpdateScheme::GitBranch { repo_url: Some(repository.clone()), branch: branch.clone(), short_hash_length: n };
            Ok(Source::new(version, template.as_str(), scheme))
        },
    }
}

/// Why a source could not be added.
#[derive(Debug)]
pub enum AddError {
    SourceName(SourceNameError),
    /// A source of this name is already in the lockfile.
    AlreadyExists(String),
    InitialVersion(InitialVersionError),
    BuildSource(BuildSourceError),
    BuildUrl(BuildFullUrlError),
    Hash(GetArtifactHashError),
}

/// What the caller does next for a new source.
#[derive(Debug)]
pub enum AddAction {
    /// List the remote refs, then call `give_listing`.
    List(RemoteQuery),
    /// Hash the artifact, then call `give_hash`.
    Fetch(FetchRequest),
    /// The source is in the map; write the lockfile.
    Added,
    /// Nothing was added.
    Failed(AddError),
}

/// Adding one source to a lockfile: its name is inferred and checked to be
/// new, its initial version is resolved, the source is built and hashed
/// (unless a hash is forced), and it is inserted.
#[derive(Debug)]
pub struct AddRun {
    pub sources: SourceMap,
    pub args: AddArgs,
    /// The name of the new source, once known.
    pub name: String,
    /// The new source while its hash is fetched.
    pub pending: Option<Source>,
}

impl AddRun {
    pub open spec fn wf(&self) -> bool {
        &&& self.sources.wf()
        &&& self.pending is Some ==> !has_name(self.sources@, self.name@)
    }

    /// Waiting for the listing of remote refs.
    pub open spec fn awaiting_listing(&self) -> bool {
        &&& self.pending is None
        &&& !has_name(self.sources@, self.name@)
        &&& source_name_spec(self.args.update_scheme) == Some(self.name@)
    }

    /// Waiting for the hash of the new source's artifact.
    pub open spec fn awaiting_hash(&self) -> bool {
        &&& self.pending matches Some(p) && p@.pinned == self.args.pinned && p@.latest_checked_version
            == p@.version
        &&& self.args.force_hash is None
        &&& source_name_spec(self.args.update_scheme) == Some(self.name@)
    }

    /// What taking `listing` does to a run over `sources` that adds `name`
    /// with `args`: the initial version and the source are built; with a
    /// forced hash the source is added, else its artifact is to be hashed;
    /// each failure names the step that failed and changes nothing.
    pub open spec fn listing_outcome(
        sources: Seq<(Seq<char>, SourceView)>,
        args: AddArgs,
        name: Seq<char>,
        listing: Result<String, ListingFailure>,
        r: AddAction,
        after: AddRun,
    ) -> bool {
        match initial_version_of(args.update_scheme, listing) {
            None => {
                &&& r matches AddAction::Failed(AddError::InitialVersion(e)) && initial_version_spec(
                    args.update_scheme,
                    listing,
                    Err(e),
                )
                &&& after.sources@ == sources
                &&& after.pending is None
            },
            Some(v) => match built_source(args.update_scheme, v) {
                None => {
                    &&& r matches AddAction::Failed(AddError::BuildSource(e)) && build_source_spec(
                        args.update_scheme,
                        v,
                        Err(e),
                    )
                    &&& after.sources@ == sources
                    &&& after.pending is None
                },
                Some(s) => {
                    let sp = SourceView { pinned: args.pinned, ..s };
                    match args.force_hash {
                        Some(h) => {
                            &&& r is Added
                            &&& after.sources@ == sources.push((name, SourceView { hash: h@, ..sp }))
                            &&& after.pending is None
                        },
                        None => {
                            let expanded = expanded_url(sp.artifact_url_template, sp.update_scheme, v);
                            &&& after.sources@ == sources
                            &&& match url_parse_of(expanded) {
                                None => {
                                    &&& r matches AddAction::Failed(AddError::BuildUrl(e)) && e.full_url@
                                        == expanded
                                    &&& after.pending is None
                                },
                                Some(u) => {
                                    &&& r matches AddAction::Fetch(f) && f.url@ == u.0 && f.candidate@ == v
                                        && f.unpack == scheme_unpack(sp.update_scheme)
                                    &&& after.pending matches Some(p) && p@ == sp
                                },
                            }
                        },
                    }
                },
            },
        }
    }

    /// The new entry `e` is what the arguments ask for.
    pub open spec fn fits(&self, e: (Seq<char>, SourceView)) -> bool {
        &&& source_name_spec(self.args.update_scheme) == Some(e.0)
        &&& e.1.pinned == self.args.pinned
        &&& e.1.latest_checked_version == e.1.version
        &&& (self.args.force_hash matches Some(h) ==> e.1.hash == h@)
    }

    pub fn new(sources: SourceMap, args: AddArgs) -> (r: AddRun)
        requires
            sources.wf(),
        ensures
            r.wf(),
            r.sources@ == sources@,
            r.args == args,
            r.pending is None,
    {
        AddRun { sources, args, name: String::new(), pending: None }
    }

    /// Names the new source and checks that the name is free; the first action.
    pub fn start(&mut self) -> (r: AddAction)
        requires
            old(self).wf(),
            old(self).pending is None,
        ensures
            final(self).wf(),
            final(self).args == old(self).args,
            r is Fetch ==> final(self).awaiting_hash(),
            match source_name_spec(old(self).args.update_scheme) {
                None => r matches AddAction::Failed(AddError::SourceName(e)) && source_name_error_spec(
                    old(self).args.update_scheme,
                    e,
                ) && final(self).sources@ == old(self).sources@,
                Some(n) => if has_name(old(self).sources@, n) {
                    r matches AddAction::Failed(AddError::AlreadyExists(m)) && m@ == n && final(self).sources@
                        == old(self).sources@
                } else {
                    match query_kind(old(self).args.update_scheme) {
                        None => r matches AddAction::Failed(AddError::InitialVersion(e)) && initial_query_spec(
                            old(self).args.update_scheme,
                            Err(e),
                        ) && final(self).sources@ == old(self).sources@,
                        Some(true) => r matches AddAction::List(q) && initial_query_spec(
                            old(self).args.update_scheme,
                            Ok(Some(q)),
                        ) && final(self).awaiting_listing() && final(self).name@ == n && final(self).sources@
                            == old(self).sources@,
                        Some(false) => AddRun::listing_outcome(
                            old(self).sources@,
                            old(self).args,
                            n,
                            Err(ListingFailure::CommandOutputInvalidUtf8),
                            r,
                            *final(self),
                        ),
                    }
                },
            },
    {
        let name = match build_source_name(&self.args.update_scheme) {
            Ok(n) => n,
            Err(e) => return AddAction::Failed(AddError::SourceName(e)),
        };
        if self.sources.contains_key(name.as_str()) {
            return AddAction::Failed(AddError::AlreadyExists(name));
        }
        self.name = name;
        match initial_version_query(&self.args.update_scheme) {
            Ok(Some(q)) => AddAction::List(q),
            Ok(None) => self.give_listing(Ok(String::new())),
            Err(e) => AddAction::Failed(AddError::InitialVersion(e)),
        }
    }

    /// Takes the listing that `AddAction::List` asked for (or none, where none
    /// was asked for).
    pub fn give_listing(&mut self, listing: Result<String, ListingFailure>) -> (r: AddAction)
        requires
            old(self).wf(),
            old(self).awaiting_listing(),
        ensures
            final(self).wf(),
            final(self).args == old(self).args,
            final(self).name == old(self).name,
            r is Fetch ==> final(self).awaiting_hash(),
            AddRun::listing_outcome(old(self).sources@, old(self).args, old(self).name@, listing, r, *final(self)),
    {
        let version = match build_initial_version(&self.args.update_scheme, listing) {
            Ok(v) => v,
            Err(e) => return AddAction::Failed(AddError::InitialVersion(e)),
        };
        let mut source = match build_source(&self.args.update_scheme, version.as_str()) {
            Ok(s) => s.with_pinned(self.args.pinned),
            Err(e) => return AddAction::Failed(AddError::BuildSource(e)),
        };
        match &self.args.force_hash {
            Some(h) => {
                source.hash = h.clone();
                let inserted = self.sources.insert_new(self.name.clone(), source);
                assert(inserted);
                AddAction::Added
            },
            None => match source.full_url(version.as_str()) {
                Ok(u) => {
                    let unpack = source.update_scheme.unpack();
                    self.pending = Some(source);
                    AddAction::Fetch(FetchRequest { url: u.text, unpack, candidate: version })
                },
                Err(e) => AddAction::Failed(AddError::BuildUrl(e)),
            },
        }
    }

    /// Takes the result of hashing the artifact that `AddAction::Fetch` asked for.
    pub fn give_hash(&mut self, fetched: Result<String, GetArtifactHashError>) -> (r: AddAction)
        requires
            old(self).wf(),
            old(self).awaiting_hash(),
        ensures
            final(self).wf(),
            final(self).pending is None,
            fetched is Ok <==> r is Added,
            r is Added ==> final(self).fits(final(self).sources@.last()),
            fetched matches Ok(h) ==> final(self).sources@ == old(self).sources@.push(
                (old(self).name@, SourceView { hash: h@, ..old(self).pending->0@ }),
            ),
            fetched matches Err(e) ==> r == AddAction::Failed(AddError::Hash(e)) && final(self).sources@
                == old(self).sources@,
    {
        let mut source = self.pending.take().unwrap();
        match fetched {
            Ok(h) => {
                source.hash = h;
                let inserted = self.sources.insert_new(self.name.clone(), source);
                assert(inserted);
                AddAction::Added
            },
            Err(e) => AddAction::Failed(AddError::Hash(e)),
        }
    }
}

} // verus!
