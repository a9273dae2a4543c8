//! Update schemes and the resolution of a candidate version for a source.
use crate::text::{
    chars_of, concat_strs, has_prefix, is_ascii_digit, lines_of, lines_spec, split_chars,
    split_spec, starts_with_at, string_of, views, chars_eq, slice_chars,
};
use crate::source::Source;
use crate::weburl::{path_segments_spec, url_parse_of, url_with_path_of, ParsedUrl};
use vstd::prelude::*;

verus! {

/// How a source finds its next version.
#[derive(Debug)]
pub enum VersionUpdateScheme {
    /// Follow the highest version tag of a repository.
    GitTags { repo_url: Option<String>, tag_prefix: Option<String>, unpack: bool },
    /// Follow the head commit of a branch.
    GitBranch { repo_url: Option<String>, branch: String, short_hash_length: usize },
    /// Keep the version; only the hash is refreshed.
    Static { unpack: bool },
}

pub open spec fn scheme_unpack(s: VersionUpdateScheme) -> bool {
    match s {
        VersionUpdateScheme::GitTags { unpack, .. } => unpack,
        VersionUpdateScheme::GitBranch { .. } => false,
        VersionUpdateScheme::Static { unpack } => unpack,
    }
}

impl VersionUpdateScheme {
    pub fn is_static(&self) -> (r: bool)
        ensures
            r == (*self is Static),
    {
        match self {
            VersionUpdateScheme::Static { .. } => true,
            _ => false,
        }
    }

    /// Whether the artifact is unpacked before it is hashed.
    pub fn unpack(&self) -> (r: bool)
        ensures
            r == scheme_unpack(*self),
    {
        match self {
            VersionUpdateScheme::GitTags { unpack, .. } => *unpack,
            VersionUpdateScheme::GitBranch { .. } => false,
            VersionUpdateScheme::Static { unpack } => *unpack,
        }
    }
}

/// Why no repository URL could be inferred from an artifact URL template.
#[derive(Debug)]
pub enum InferGitUrlError {
    CouldNotParseUrlTemplate(String),
    ArtifactUrlNoBase,
    InsufficientPathSegments,
}

/// The path `owner/repo` made of the first two path segments.
pub open spec fn owner_repo_path(segs: Seq<Seq<char>>) -> Seq<char> {
    segs[0] + seq!['/'] + segs[1]
}

/// The repository URL inferred from `from`, as far as the outcome is an `Ok`
/// or one of the errors that carry no text.
pub open spec fn infer_git_url_spec(from: Seq<char>, r: Result<ParsedUrl, InferGitUrlError>) -> bool {
    match url_parse_of(from) {
        None => r matches Err(InferGitUrlError::CouldNotParseUrlTemplate(_)),
        Some(u) => match path_segments_spec(u.2) {
            None => r matches Err(InferGitUrlError::ArtifactUrlNoBase),
            Some(segs) => if segs.len() < 2 {
                r matches Err(InferGitUrlError::InsufficientPathSegments)
            } else {
                r matches Ok(g) && g@ == url_with_path_of(from, owner_repo_path(segs))
            },
        },
    }
}

/// The repository URL of an artifact URL: the same URL with its path cut to
/// the first two segments (owner and repository).
pub fn infer_git_url(from: &str) -> (r: Result<ParsedUrl, InferGitUrlError>)
    ensures
        infer_git_url_spec(from@, r),
{
    let u = match ParsedUrl::parse(from) {
        Ok(u) => u,
        Err(e) => return Err(InferGitUrlError::CouldNotParseUrlTemplate(e)),
    };
    let segs = match u.path_segments() {
        Some(s) => s,
        None => return Err(InferGitUrlError::ArtifactUrlNoBase),
    };
    if segs.len() < 2 {
        return Err(InferGitUrlError::InsufficientPathSegments);
    }
    let owner = string_of(segs[0].as_slice());
    let repo = string_of(segs[1].as_slice());
    let owner_slash = concat_strs(owner.as_str(), "/");
    let path = concat_strs(owner_slash.as_str(), repo.as_str());
    proof {
        reveal_strlit("/");
        assert(path@ == owner_repo_path(views(segs@)));
    }
    Ok(ParsedUrl::with_path(from, path.as_str()))
}

/// The reference names that a listing of remote refs holds: the part of each
/// line after its last `/`.
pub open spec fn ref_names(listing: Seq<char>) -> Seq<Seq<char>> {
    lines_spec(listing).map_values(|l: Seq<char>| split_spec(l, '/').last())
}

/// A tag fits a prefix when it starts with it and the character right after
/// it is an ASCII digit.
pub open spec fn tag_fits(tag: Seq<char>, prefix: Seq<char>) -> bool {
    &&& has_prefix(tag, prefix)
    &&& tag.len() > prefix.len()
    &&& is_ascii_digit(tag[prefix.len() as int])
}

/// The last tag of `tags` that fits `prefix`.
pub open spec fn last_fitting_tag(tags: Seq<Seq<char>>, prefix: Seq<char>) -> Option<Seq<char>>
    decreases tags.len(),
{
    if tags.len() == 0 {
        None
    } else if tag_fits(tags.last(), prefix) {
        Some(tags.last())
    } else {
        last_fitting_tag(tags.drop_last(), prefix)
    }
}

/// The tag prefix in effect: none stands for the empty prefix.
pub open spec fn prefix_of(filter: Option<String>) -> Seq<char> {
    match filter {
        Some(p) => p@,
        None => Seq::empty(),
    }
}

/// The version that the tag listing `listing` offers under `prefix`: the last
/// fitting tag with the prefix taken off.
pub open spec fn latest_tag_version(listing: Seq<char>, prefix: Seq<char>) -> Option<Seq<char>> {
    match last_fitting_tag(ref_names(listing), prefix) {
        Some(t) => Some(t.subrange(prefix.len() as int, t.len() as int)),
        None => None,
    }
}

/// Why listing the remote refs of a repository failed.
#[derive(Debug)]
pub enum ListingFailure {
    CommandFailed { full_command: String, io_error: String },
    CommandOutputInvalidUtf8,
}

#[derive(Debug)]
pub enum FetchLatestGitTagError {
    CommandFailed { full_command: String, io_error: String },
    CommandOutputInvalidUtf8,
    NoTagsFitFilter,
}

/// The names of the refs of a listing, one per line.
fn ref_names_of(listing: &str) -> (r: Vec<Vec<char>>)
    ensures
        views(r@) == ref_names(listing@),
{
    let lines = lines_of(&chars_of(listing));
    let mut names: Vec<Vec<char>> = Vec::new();
    let mut i: usize = 0;
    while i < lines.len()
        invariant
            i <= lines@.len(),
            views(lines@) == lines_spec(listing@),
            views(names@) == ref_names(listing@).take(i as int),
        decreases lines.len() - i,
    {
        let pieces = split_chars(&lines[i], '/');
        let last = slice_chars(&pieces[pieces.len() - 1], 0, pieces[pieces.len() - 1].len());
        let ghost prev = views(names@);
        proof {
            assert(last@ =~= views(pieces@).last());
        }
        names.push(last);
        proof {
            assert(views(names@) =~= prev.push(last@));
            assert(ref_names(listing@).take(i + 1) =~= ref_names(listing@).take(i as int).push(
                ref_names(listing@)[i as int],
            ));
        }
        i += 1;
    }
    proof {
        assert(ref_names(listing@).take(lines@.len() as int) =~= ref_names(listing@));
    }
    names
}

/// Whether `tag` fits `prefix`.
fn tag_fits_exec(tag: &Vec<char>, prefix: &Vec<char>) -> (r: bool)
    ensures
        r == tag_fits(tag@, prefix@),
{
    if !starts_with_at(tag, 0, prefix) {
        proof {
            assert(tag@.subrange(0, tag@.len() as int) =~= tag@);
        }
        return false;
    }
    proof {
        assert(tag@.subrange(0, tag@.len() as int) =~= tag@);
    }
    if tag.len() <= prefix.len() {
        return false;
    }
    let c = tag[prefix.len()];
    '0' <= c && c <= '9'
}

/// The latest version among the tags of `listing` (the output of a
/// version-sorted `git ls-remote --tags`) that fit `filter`.
pub fn fetch_latest_git_tag(listing: &str, filter: &Option<String>) -> (r: Result<
    String,
    FetchLatestGitTagError,
>)
    ensures
        match latest_tag_version(listing@, prefix_of(*filter)) {
            None => r matches Err(FetchLatestGitTagError::NoTagsFitFilter),
            Some(v) => r matches Ok(s) && s@ == v,
        },
{
    let prefix: Vec<char> = match filter {
        Some(p) => chars_of(p.as_str()),
        None => Vec::new(),
    };
    let ghost pre = prefix_of(*filter);
    assert(prefix@ == pre);
    let names = ref_names_of(listing);
    let ghost all = ref_names(listing@);
    let mut i: usize = names.len();
    proof {
        assert(all.take(i as int) =~= all);
    }
    while i > 0
        invariant
            i <= names@.len(),
            views(names@) == all,
            all == ref_names(listing@),
            pre == prefix_of(*filter),
            prefix@ == pre,
            last_fitting_tag(all, pre) == last_fitting_tag(all.take(i as int), pre),
        decreases i,
    {
        proof {
            assert(all.take(i as int).last() == names@[i - 1]@);
            assert(all.take(i as int).drop_last() =~= all.take(i - 1));
        }
        if tag_fits_exec(&names[i - 1], &prefix) {
            let tag = &names[i - 1];
            let v = slice_chars(tag, prefix.len(), tag.len());
            proof {
                assert(all[i - 1] == tag@);
                assert(last_fitting_tag(all.take(i as int), pre) == Some(tag@));
                assert(latest_tag_version(listing@, pre) == Some(v@));
            }
            return Ok(string_of(v.as_slice()));
        }
        i -= 1;
    }
    proof {
        assert(all.take(0) =~= Seq::<Seq<char>>::empty());
    }
    Err(FetchLatestGitTagError::NoTagsFitFilter)
}

#[derive(Debug)]
pub enum FetchGitBranchCommitError {
    CommandFailed { full_command: String, io_error: String },
    CommandOutputInvalidUtf8,
    BranchNotFound,
}

/// Whitespace that separates the fields of a listing line: the characters
/// with Unicode's White_Space property, as `char::is_whitespace` has them.
pub open spec fn is_space(c: char) -> bool {
    ||| ('\u{9}' <= c && c <= '\u{D}')
    ||| c == ' '
    ||| c == '\u{85}'
    ||| c == '\u{A0}'
    ||| c == '\u{1680}'
    ||| ('\u{2000}' <= c && c <= '\u{200A}')
    ||| c == '\u{2028}'
    ||| c == '\u{2029}'
    ||| c == '\u{202F}'
    ||| c == '\u{205F}'
    ||| c == '\u{3000}'
}

fn is_space_exec(c: char) -> (r: bool)
    ensures
        r == is_space(c),
{
    ('\u{9}' <= c && c <= '\u{D}') || c == ' ' || c == '\u{85}' || c == '\u{A0}' || c == '\u{1680}'
        || ('\u{2000}' <= c && c <= '\u{200A}') || c == '\u{2028}' || c == '\u{2029}' || c == '\u{202F}'
        || c == '\u{205F}' || c == '\u{3000}'
}

pub open spec fn skip_space(l: Seq<char>) -> Seq<char>
    decreases l.len(),
{
    if l.len() > 0 && is_space(l[0]) {
        skip_space(l.subrange(1, l.len() as int))
    } else {
        l
    }
}

pub open spec fn take_word(l: Seq<char>) -> Seq<char>
    decreases l.len(),
{
    if l.len() == 0 || is_space(l[0]) {
        Seq::empty()
    } else {
        seq![l[0]] + take_word(l.subrange(1, l.len() as int))
    }
}

/// The first whitespace-separated field of a line.
pub open spec fn first_word(l: Seq<char>) -> Seq<char> {
    take_word(skip_space(l))
}

/// The first line whose ref name (the part after its last `/`) is `branch`.
pub open spec fn first_branch_line(lines: Seq<Seq<char>>, branch: Seq<char>) -> Option<Seq<char>>
    decreases lines.len(),
{
    if lines.len() == 0 {
        None
    } else if split_spec(lines[0], '/').last() == branch {
        Some(lines[0])
    } else {
        first_branch_line(lines.subrange(1, lines.len() as int), branch)
    }
}

/// The head commit that the branch listing `listing` gives for `branch`.
pub open spec fn branch_commit(listing: Seq<char>, branch: Seq<char>) -> Option<Seq<char>> {
    match first_branch_line(lines_spec(listing), branch) {
        Some(l) => Some(first_word(l)),
        None => None,
    }
}

fn first_word_exec(l: &Vec<char>) -> (r: Vec<char>)
    ensures
        r@ == first_word(l@),
{
    let n = l.len();
    let mut i: usize = 0;
    proof {
        assert(l@.subrange(0, n as int) =~= l@);
    }
    while i < n && is_space_exec(l[i])
        invariant
            i <= n,
            n == l@.len(),
            skip_space(l@) == skip_space(l@.subrange(i as int, n as int)),
        decreases n - i,
    {
        proof {
            assert(l@.subrange(i as int, n as int).subrange(1, n - i) =~= l@.subrange(i + 1, n as int));
        }
        i += 1;
    }
    let start = i;
    let mut j: usize = i;
    proof {
        assert(l@.subrange(start as int, start as int) =~= Seq::<char>::empty());
        assert(take_word(l@.subrange(start as int, n as int)) =~= l@.subrange(start as int, start as int) + take_word(l@.subrange(start as int, n as int)));
    }
    while j < n && !is_space_exec(l[j])
        invariant
            start <= j <= n,
            n == l@.len(),
            take_word(l@.subrange(start as int, n as int)) == l@.subrange(start as int, j as int)
                + take_word(l@.subrange(j as int, n as int)),
        decreases n - j,
    {
        proof {
            let t = l@.subrange(j as int, n as int);
            assert(t.subrange(1, t.len() as int) =~= l@.subrange(j + 1, n as int));
            assert(l@.subrange(start as int, j + 1) =~= l@.subrange(start as int, j as int) + seq![l@[j as int]]);
        }
        j += 1;
    }
    proof {
        assert(take_word(l@.subrange(j as int, n as int)) =~= Seq::<char>::empty());
        assert(l@.subrange(start as int, j as int) + Seq::<char>::empty() =~= l@.subrange(start as int, j as int));
    }
    slice_chars(l, start, j)
}

/// The head commit of `branch` in `listing` (the output of
/// `git ls-remote --branches`).
pub fn fetch_git_branch_commit(listing: &str, branch: &str) -> (r: Result<String, FetchGitBranchCommitError>)
    ensures
        match branch_commit(listing@, branch@) {
            None => r matches Err(FetchGitBranchCommitError::BranchNotFound),
            Some(c) => r matches Ok(s) && s@ == c,
        },
{
    let lines = lines_of(&chars_of(listing));
    let b = chars_of(branch);
    let ghost all = lines_spec(listing@);
    let n = lines.len();
    let mut i: usize = 0;
    proof {
        assert(all.subrange(0, n as int) =~= all);
    }
    while i < n
        invariant
            i <= n,
            n == lines@.len(),
            views(lines@) == all,
            all == lines_spec(listing@),
            b@ == branch@,
            first_branch_line(all, b@) == first_branch_line(all.subrange(i as int, n as int), b@),
        decreases n - i,
    {
        let pieces = split_chars(&lines[i], '/');
        let ghost rest = all.subrange(i as int, n as int);
        proof {
            assert(rest[0] == lines@[i as int]@);
            assert(rest.subrange(1, rest.len() as int) =~= all.subrange(i + 1, n as int));
        }
        if chars_eq(&pieces[pieces.len() - 1], &b) {
            let w = first_word_exec(&lines[i]);
            return Ok(string_of(w.as_slice()));
        }
        i += 1;
    }
    Err(FetchGitBranchCommitError::BranchNotFound)
}

pub open spec fn min_nat(a: nat, b: nat) -> nat {
    if a <= b {
        a
    } else {
        b
    }
}

/// The version recorded for a branch head: the branch, a dash, and the first
/// `n` characters of the commit (all of it where it is shorter).
pub open spec fn branch_version_spec(branch: Seq<char>, commit: Seq<char>, n: nat) -> Seq<char> {
    branch + seq!['-'] + commit.take(min_nat(n, commit.len()) as int)
}

pub fn branch_version(branch: &str, commit: &str, short_hash_length: usize) -> (r: String)
    ensures
        r@ == branch_version_spec(branch@, commit@, short_hash_length as nat),
{
    let c = chars_of(commit);
    let n = if short_hash_length <= c.len() {
        short_hash_length
    } else {
        c.len()
    };
    let short = slice_chars(&c, 0, n);
    let short = string_of(short.as_slice());
    let head = concat_strs(branch, "-");
    proof {
        reveal_strlit("-");
        assert(c@.subrange(0, n as int) =~= c@.take(n as int));
    }
    concat_strs(head.as_str(), short.as_str())
}

/// Why no candidate version could be resolved.
#[allow(inconsistent_fields)]
#[derive(Debug)]
pub enum GetLatestVersionError {
    GetGitUrl(InferGitUrlError),
    FetchGitTags { error: FetchLatestGitTagError, tag_prefix: Option<String> },
    FetchBranchCommit { error: FetchGitBranchCommitError, branch: String },
}

impl GetLatestVersionError {
    /// Whether the error concerns one source only (no repository URL could be
    /// inferred, or no tag fits the prefix), so that a run goes on past it.
    pub open spec fn recoverable(&self) -> bool {
        ||| *self is GetGitUrl
        ||| *self matches GetLatestVersionError::FetchGitTags {
            error: FetchLatestGitTagError::NoTagsFitFilter,
            ..
        }
    }

    pub fn is_recoverable(&self) -> (r: bool)
        ensures
            r == self.recoverable(),
    {
        match self {
            GetLatestVersionError::GetGitUrl(_) => true,
            GetLatestVersionError::FetchGitTags { error: FetchLatestGitTagError::NoTagsFitFilter, .. } => true,
            _ => false,
        }
    }
}

/// The repository URL inferred from an artifact URL template, as parts.
pub open spec fn inferred_git_url(template: Seq<char>) -> Option<(Seq<char>, Option<Seq<char>>, Seq<char>)> {
    match url_parse_of(template) {
        None => None,
        Some(u) => match path_segments_spec(u.2) {
            None => None,
            Some(segs) => if segs.len() < 2 {
                None
            } else {
                Some(url_with_path_of(template, owner_repo_path(segs)))
            },
        },
    }
}

/// The repository URL inferred from an artifact URL template.
pub open spec fn inferred_repo(template: Seq<char>) -> Option<Seq<char>> {
    match inferred_git_url(template) {
        Some(u) => Some(u.0),
        None => None,
    }
}

/// The repository URL in effect: the explicit one, else the inferred one.
pub open spec fn resolved_repo(repo_url: Option<String>, template: Seq<char>) -> Option<Seq<char>> {
    match repo_url {
        Some(u) => Some(u@),
        None => inferred_repo(template),
    }
}

/// Which listing of remote refs a candidate needs.
#[derive(Debug)]
pub enum RemoteQuery {
    Tags { repo_url: String },
    Branches { repo_url: String },
}

/// The repository URL in effect for a scheme that follows a repository.
fn repo_url_for(repo_url: &Option<String>, template: &str) -> (r: Result<String, InferGitUrlError>)
    ensures
        match resolved_repo(*repo_url, template@) {
            Some(u) => r matches Ok(s) && s@ == u,
            None => r is Err,
        },
{
    match repo_url {
        Some(u) => Ok(u.clone()),
        None => match infer_git_url(template) {
            Ok(g) => Ok(g.text),
            Err(e) => Err(e),
        },
    }
}

/// The remote listing a scheme needs for a source with template `template`:
/// `None` for a static source, else the listing's kind and repository URL;
/// the error when the repository URL cannot be inferred.
pub open spec fn remote_query_spec(
    scheme: VersionUpdateScheme,
    template: Seq<char>,
    r: Result<Option<RemoteQuery>, GetLatestVersionError>,
) -> bool {
    match scheme {
        VersionUpdateScheme::Static { .. } => r matches Ok(None),
        VersionUpdateScheme::GitTags { repo_url, .. } => match resolved_repo(repo_url, template) {
            None => r matches Err(GetLatestVersionError::GetGitUrl(_)),
            Some(u) => r matches Ok(Some(RemoteQuery::Tags { repo_url: q })) && q@ == u,
        },
        VersionUpdateScheme::GitBranch { repo_url, .. } => match resolved_repo(repo_url, template) {
            None => r matches Err(GetLatestVersionError::GetGitUrl(_)),
            Some(u) => r matches Ok(Some(RemoteQuery::Branches { repo_url: q })) && q@ == u,
        },
    }
}

/// The candidate version that a listing `listing` gives a source at
/// `version`: `None` where the listing holds no usable ref.
pub open spec fn candidate_spec(scheme: VersionUpdateScheme, version: Seq<char>, listing: Seq<char>) -> Option<Seq<char>> {
    match scheme {
        VersionUpdateScheme::Static { .. } => Some(version),
        VersionUpdateScheme::GitTags { tag_prefix, .. } => latest_tag_version(listing, prefix_of(tag_prefix)),
        VersionUpdateScheme::GitBranch { branch, short_hash_length, .. } => match branch_commit(listing, branch@) {
            Some(c) => Some(branch_version_spec(branch@, c, short_hash_length as nat)),
            None => None,
        },
    }
}

/// A failed tag listing as the error of the tag lookup.
pub open spec fn tag_listing_error(f: ListingFailure) -> FetchLatestGitTagError {
    match f {
        ListingFailure::CommandFailed { full_command, io_error } => FetchLatestGitTagError::CommandFailed {
            full_command,
            io_error,
        },
        ListingFailure::CommandOutputInvalidUtf8 => FetchLatestGitTagError::CommandOutputInvalidUtf8,
    }
}

/// A failed branch listing as the error of the branch lookup.
pub open spec fn branch_listing_error(f: ListingFailure) -> FetchGitBranchCommitError {
    match f {
        ListingFailure::CommandFailed { full_command, io_error } => FetchGitBranchCommitError::CommandFailed {
            full_command,
            io_error,
        },
        ListingFailure::CommandOutputInvalidUtf8 => FetchGitBranchCommitError::CommandOutputInvalidUtf8,
    }
}

/// What resolving a candidate gives, from the listing (or its failure): the
/// candidate, or the error of the tag or branch lookup with the scheme's
/// tag prefix or branch.
pub open spec fn new_version_spec(
    scheme: VersionUpdateScheme,
    version: Seq<char>,
    listing: Result<String, ListingFailure>,
    r: Result<String, GetLatestVersionError>,
) -> bool {
    match (scheme, listing) {
        (VersionUpdateScheme::Static { .. }, _) => r matches Ok(v) && v@ == version,
        (VersionUpdateScheme::GitTags { tag_prefix, .. }, Err(f)) => r == Err::<String, GetLatestVersionError>(
            GetLatestVersionError::FetchGitTags { error: tag_listing_error(f), tag_prefix },
        ),
        (VersionUpdateScheme::GitBranch { branch, .. }, Err(f)) => r == Err::<String, GetLatestVersionError>(
            GetLatestVersionError::FetchBranchCommit { error: branch_listing_error(f), branch },
        ),
        (VersionUpdateScheme::GitTags { tag_prefix, .. }, Ok(out)) => match candidate_spec(scheme, version, out@) {
            Some(c) => r matches Ok(v) && v@ == c,
            None => r == Err::<String, GetLatestVersionError>(
                GetLatestVersionError::FetchGitTags { error: FetchLatestGitTagError::NoTagsFitFilter, tag_prefix },
            ),
        },
        (VersionUpdateScheme::GitBranch { branch, .. }, Ok(out)) => match candidate_spec(scheme, version, out@) {
            Some(c) => r matches Ok(v) && v@ == c,
            None => r == Err::<String, GetLatestVersionError>(
                GetLatestVersionError::FetchBranchCommit { error: FetchGitBranchCommitError::BranchNotFound, branch },
            ),
        },
    }
}

impl VersionUpdateScheme {
    /// The listing of remote refs that resolving a candidate for `source` needs.
    pub fn remote_query_for(&self, source: &Source) -> (r: Result<Option<RemoteQuery>, GetLatestVersionError>)
        ensures
            remote_query_spec(*self, source.artifact_url_template@, r),
    {
        match self {
            VersionUpdateScheme::Static { .. } => Ok(None),
            VersionUpdateScheme::GitTags { repo_url, .. } => match repo_url_for(repo_url, source.artifact_url_template.as_str()) {
                Ok(u) => Ok(Some(RemoteQuery::Tags { repo_url: u })),
                Err(e) => Err(GetLatestVersionError::GetGitUrl(e)),
            },
            VersionUpdateScheme::GitBranch { repo_url, .. } => match repo_url_for(repo_url, source.artifact_url_template.as_str()) {
                Ok(u) => Ok(Some(RemoteQuery::Branches { repo_url: u })),
                Err(e) => Err(GetLatestVersionError::GetGitUrl(e)),
            },
        }
    }

    /// The candidate version for `source`, from the listing that
    /// `remote_query_for` asked for (a static source needs none and ignores it).
    pub fn get_new_version_for(&self, source: &Source, listing: Result<String, ListingFailure>) -> (r: Result<String, GetLatestVersionError>)
        ensures
            new_version_spec(*self, source.version@, listing, r),
    {
        match self {
            VersionUpdateScheme::Static { .. } => Ok(source.version.clone()),
            VersionUpdateScheme::GitTags { tag_prefix, .. } => {
                let result = match listing {
                    Err(ListingFailure::CommandFailed { full_command, io_error }) => Err(
                        FetchLatestGitTagError::CommandFailed { full_command, io_error },
                    ),
                    Err(ListingFailure::CommandOutputInvalidUtf8) => Err(FetchLatestGitTagError::CommandOutputInvalidUtf8),
                    Ok(out) => fetch_latest_git_tag(out.as_str(), tag_prefix),
                };
                match result {
                    Ok(v) => Ok(v),
                    Err(error) => Err(GetLatestVersionError::FetchGitTags { error, tag_prefix: tag_prefix.clone() }),
                }
            },
            VersionUpdateScheme::GitBranch { branch, short_hash_length, .. } => {
                let result = match listing {
                    Err(ListingFailure::CommandFailed { full_command, io_error }) => Err(
                        FetchGitBranchCommitError::CommandFailed { full_command, io_error },
                    ),
                    Err(ListingFailure::CommandOutputInvalidUtf8) => Err(FetchGitBranchCommitError::CommandOutputInvalidUtf8),
                    Ok(out) => fetch_git_branch_commit(out.as_str(), branch.as_str()),
                };
                match result {
                    Ok(commit) => Ok(branch_version(branch.as_str(), commit.as_str(), *short_hash_length)),
                    Err(error) => Err(GetLatestVersionError::FetchBranchCommit { error, branch: branch.clone() }),
                }
            },
        }
    }
}

} // verus!
