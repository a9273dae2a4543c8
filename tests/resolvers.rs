use kunai::updater::{
    branch_version, fetch_git_branch_commit, infer_git_url, fetch_latest_git_tag, FetchGitBranchCommitError,
    FetchLatestGitTagError, InferGitUrlError,
};
use kunai::source::Source;
use kunai::updater::{GetLatestVersionError, ListingFailure, VersionUpdateScheme};
use kunai::weburl::ParsedUrl;

fn tag_listing(tags: &[&str]) -> String {
    let mut out = String::new();
    for t in tags {
        out.push_str("0123456789abcdef0123456789abcdef01234567\trefs/tags/");
        out.push_str(t);
        out.push('\n');
    }
    out
}

#[test]
fn tag_filter_picks_last_fitting_tag() {
    let listing = tag_listing(&["v1.0.0", "v1.2.0", "1.9.9", "v2.0.0-rc1"]);
    let r = fetch_latest_git_tag(&listing, &Some("v".to_string()));
    assert!(matches!(r, Ok(ref v) if v == "2.0.0-rc1"));
}

#[test]
fn tag_filter_needs_digit_after_prefix() {
    let listing = tag_listing(&["v1.0.0", "version-info"]);
    let r = fetch_latest_git_tag(&listing, &Some("v".to_string()));
    assert!(matches!(r, Ok(ref v) if v == "1.0.0"));
}

#[test]
fn tag_filter_without_prefix_keeps_digit_tags() {
    let listing = tag_listing(&["1.0", "v3.0", "2.5", "latest"]);
    let r = fetch_latest_git_tag(&listing, &None);
    assert!(matches!(r, Ok(ref v) if v == "2.5"));
}

#[test]
fn tag_filter_with_crlf_lines() {
    let listing = "aaaa\trefs/tags/v0.9\r\nbbbb\trefs/tags/v1.1\r\n";
    let r = fetch_latest_git_tag(listing, &Some("v".to_string()));
    assert!(matches!(r, Ok(ref v) if v == "1.1"));
}

#[test]
fn no_tag_fits_filter() {
    let listing = tag_listing(&["release-1", "v1.0"]);
    let r = fetch_latest_git_tag(&listing, &Some("rel".to_string()));
    assert!(matches!(r, Err(FetchLatestGitTagError::NoTagsFitFilter)));
    let r = fetch_latest_git_tag("", &None);
    assert!(matches!(r, Err(FetchLatestGitTagError::NoTagsFitFilter)));
}

#[test]
fn branch_commit_found_by_last_segment() {
    let listing = "1111111111\trefs/heads/dev\n2222222222\trefs/heads/main\n3333333333\trefs/heads/feature/main\n";
    let r = fetch_git_branch_commit(listing, "main");
    assert!(matches!(r, Ok(ref c) if c == "2222222222"));
    let r = fetch_git_branch_commit(listing, "dev");
    assert!(matches!(r, Ok(ref c) if c == "1111111111"));
}

#[test]
fn branch_commit_missing_branch() {
    let listing = "1111111111\trefs/heads/dev\n";
    let r = fetch_git_branch_commit(listing, "main");
    assert!(matches!(r, Err(FetchGitBranchCommitError::BranchNotFound)));
}

#[test]
fn branch_version_takes_short_hash() {
    assert_eq!(branch_version("main", "abcdef0123456789", 6), "main-abcdef");
    assert_eq!(branch_version("dev", "abc", 6), "dev-abc");
    assert_eq!(branch_version("dev", "abcdef", 1), "dev-a");
}

#[test]
fn infer_git_url_keeps_owner_and_repo() {
    let r = infer_git_url("https://github.com/owner/repo/archive/refs/tags/{version}.tar.gz");
    assert!(matches!(r, Ok(ref u) if u.text == "https://github.com/owner/repo"));
}

#[test]
fn infer_git_url_errors() {
    assert!(matches!(
        infer_git_url("https://example.com/only"),
        Err(InferGitUrlError::InsufficientPathSegments)
    ));
    assert!(matches!(
        infer_git_url("mailto:someone@example.com"),
        Err(InferGitUrlError::ArtifactUrlNoBase)
    ));
    assert!(matches!(
        infer_git_url("not a url"),
        Err(InferGitUrlError::CouldNotParseUrlTemplate(_))
    ));
}

#[test]
fn parsed_url_is_normalized() {
    let u = ParsedUrl::parse("HTTPS://Example.COM").unwrap();
    assert_eq!(u.text, "https://example.com/");
    assert_eq!(u.host.as_deref(), Some("example.com"));
    assert_eq!(u.path, "/");
    let segs = u.path_segments().unwrap();
    assert_eq!(segs, vec![Vec::<char>::new()]);
}

#[test]
fn carriage_return_kept_on_unterminated_last_line() {
    let r = git_branch_commit_names("aaaa\trefs/heads/main\r\nbbbb\trefs/heads/dev\r");
    assert!(matches!(r.0, Ok(ref c) if c == "aaaa"));
    assert!(matches!(r.1, Err(FetchGitBranchCommitError::BranchNotFound)));
}

fn git_branch_commit_names(listing: &str) -> (Result<String, FetchGitBranchCommitError>, Result<String, FetchGitBranchCommitError>) {
    (fetch_git_branch_commit(listing, "main"), fetch_git_branch_commit(listing, "dev"))
}

#[test]
fn resolver_errors_name_prefix_and_branch() {
    let tags = Source::new(
        "1.0",
        "https://github.com/o/r/archive/{version}.tar.gz",
        VersionUpdateScheme::GitTags { repo_url: None, tag_prefix: Some("v".to_string()), unpack: false },
    );
    let r = tags.update_scheme.get_new_version_for(&tags, Ok("a\trefs/tags/nightly\n".to_string()));
    assert!(matches!(
        r,
        Err(GetLatestVersionError::FetchGitTags { error: FetchLatestGitTagError::NoTagsFitFilter, tag_prefix: Some(ref p) }) if p == "v"
    ));
    let r = tags.update_scheme.get_new_version_for(&tags, Err(ListingFailure::CommandOutputInvalidUtf8));
    assert!(matches!(
        r,
        Err(GetLatestVersionError::FetchGitTags { error: FetchLatestGitTagError::CommandOutputInvalidUtf8, .. })
    ));
    let branch = Source::new(
        "main-0",
        "https://github.com/o/r/archive/{branch}.tar.gz",
        VersionUpdateScheme::GitBranch { repo_url: None, branch: "main".to_string(), short_hash_length: 6 },
    );
    let r = branch.update_scheme.get_new_version_for(&branch, Ok("a\trefs/heads/dev\n".to_string()));
    assert!(matches!(
        r,
        Err(GetLatestVersionError::FetchBranchCommit { error: FetchGitBranchCommitError::BranchNotFound, ref branch }) if branch == "main"
    ));
    let r = branch.update_scheme.get_new_version_for(
        &branch,
        Err(ListingFailure::CommandFailed { full_command: "git".to_string(), io_error: "gone".to_string() }),
    );
    assert!(matches!(
        r,
        Err(GetLatestVersionError::FetchBranchCommit { error: FetchGitBranchCommitError::CommandFailed { .. }, .. })
    ));
}

#[test]
fn branch_commit_split_at_unicode_space() {
    let listing = "abcdef\u{a0}refs/heads/main\n";
    let r = fetch_git_branch_commit(listing, "main");
    assert!(matches!(r, Ok(ref c) if c == "abcdef"));
}
