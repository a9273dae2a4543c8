use kunai::add::{
    build_initial_version, build_source, build_source_name, initial_version_query,
    validate_artifact_url, BuildSourceError, GitBranchProvider, InitialVersionError,
    SourceNameError, UpdateSchemeArg,
};
use kunai::delete::delete_sources;
use kunai::edit::{edit_source, EditError, EditableSourceKey};
use kunai::source::{Source, SourceMap};
use kunai::updater::{InferGitUrlError, ListingFailure, RemoteQuery, VersionUpdateScheme};

fn tags_arg(version: Option<&str>, name: Option<&str>, repo: Option<&str>) -> UpdateSchemeArg {
    UpdateSchemeArg::GitTags {
        artifact_url: "https://github.com/owner/tool/releases/download/v{version}/tool.tar.gz".to_string(),
        version: version.map(|v| v.to_string()),
        source_name: name.map(|n| n.to_string()),
        git_repo: repo.map(|r| r.to_string()),
        tag_prefix: Some("v".to_string()),
        unpack: false,
    }
}

fn branch_arg(repository: &str, provider: Option<GitBranchProvider>, artifact_url: Option<&str>) -> UpdateSchemeArg {
    UpdateSchemeArg::GitBranch {
        repository: repository.to_string(),
        branch: "main".to_string(),
        source_name: None,
        short_hash_len: None,
        artifact_url: artifact_url.map(|a| a.to_string()),
        provider,
    }
}

fn map_of(names: &[&str]) -> SourceMap {
    let mut m = SourceMap::new();
    for n in names {
        let s = Source::new("1.0", "https://x/{version}.tar.gz", VersionUpdateScheme::Static { unpack: false });
        assert!(m.insert_new(n.to_string(), s));
    }
    m
}

#[test]
fn artifact_url_validation() {
    assert!(validate_artifact_url("https://x/{version}.tar.gz").is_ok());
    assert!(validate_artifact_url("x/{version}").is_err());
}

#[test]
fn source_name_inferred_from_repository() {
    let r = build_source_name(&tags_arg(None, None, None));
    assert!(matches!(r, Ok(ref n) if n == "tool"));
    let r = build_source_name(&tags_arg(None, Some("mine"), None));
    assert!(matches!(r, Ok(ref n) if n == "mine"));
    let r = build_source_name(&tags_arg(None, None, Some("https://codeberg.org/a/other")));
    assert!(matches!(r, Ok(ref n) if n == "other"));
    let r = build_source_name(&branch_arg("https://github.com/o/thing.git", None, None));
    assert!(matches!(r, Ok(ref n) if n == "thing"));
}

#[test]
fn source_name_needs_repository() {
    let arg = UpdateSchemeArg::GitTags {
        artifact_url: "https://example.com/file".to_string(),
        version: Some("1".to_string()),
        source_name: Some("n".to_string()),
        git_repo: None,
        tag_prefix: None,
        unpack: false,
    };
    assert!(matches!(build_source_name(&arg), Err(SourceNameError::GetGitUrlFailed(_))));
}

#[test]
fn initial_version_from_tags() {
    let arg = tags_arg(None, None, None);
    match initial_version_query(&arg) {
        Ok(Some(RemoteQuery::Tags { repo_url })) => assert_eq!(repo_url, "https://github.com/owner/tool"),
        _ => panic!("expected a tag listing"),
    }
    let r = build_initial_version(&arg, Ok("a\trefs/tags/v0.1\nb\trefs/tags/v0.2\n".to_string()));
    assert!(matches!(r, Ok(ref v) if v == "0.2"));
    let r = build_initial_version(&arg, Ok("a\trefs/tags/nightly\n".to_string()));
    assert!(matches!(r, Err(InitialVersionError::NoTagsFitPrefix(Some(ref p))) if p == "v"));
    let r = build_initial_version(&arg, Err(ListingFailure::CommandOutputInvalidUtf8));
    assert!(matches!(r, Err(InitialVersionError::FetchTags { .. })));
    let given = tags_arg(Some("3.0"), None, None);
    assert!(matches!(initial_version_query(&given), Ok(None)));
    assert!(matches!(build_initial_version(&given, Ok(String::new())), Ok(ref v) if v == "3.0"));
}

#[test]
fn initial_version_from_branch() {
    let arg = branch_arg("https://github.com/o/thing", None, None);
    let r = build_initial_version(&arg, Ok("0123456789\trefs/heads/main\n".to_string()));
    assert!(matches!(r, Ok(ref v) if v == "main-012345"));
    let r = build_initial_version(&arg, Ok("0123456789\trefs/heads/dev\n".to_string()));
    assert!(matches!(r, Err(InitialVersionError::BranchNotFound(ref b)) if b == "main"));
}

#[test]
fn branch_source_templates_by_provider() {
    let s = build_source(&branch_arg("https://github.com/o/thing.git", None, None), "main-012345").unwrap();
    assert_eq!(s.artifact_url_template, "https://github.com/o/thing/archive/{branch}.tar.gz");
    assert_eq!(s.version, "main-012345");
    assert_eq!(s.latest_checked_version, "main-012345");
    assert!(matches!(s.update_scheme, VersionUpdateScheme::GitBranch { short_hash_length: 6, .. }));
    let s = build_source(&branch_arg("https://gitlab.com/o/thing", None, None), "v").unwrap();
    assert_eq!(s.artifact_url_template, "https://gitlab.com/o/thing/-/archive/{branch}/thing-{branch}.tar.gz");
    let s = build_source(&branch_arg("https://git.example.org/o/thing", None, None), "v").unwrap();
    assert_eq!(s.artifact_url_template, "https://git.example.org/o/thing/archive/{branch}.tar.gz");
    let s = build_source(&branch_arg("https://git.example.org/o/thing", Some(GitBranchProvider::Gitlab), None), "v").unwrap();
    assert_eq!(s.artifact_url_template, "https://git.example.org/o/thing/-/archive/{branch}/thing-{branch}.tar.gz");
    let s = build_source(&branch_arg("https://github.com/o/thing", None, Some("https://cdn/{branch}.zip")), "v").unwrap();
    assert_eq!(s.artifact_url_template, "https://cdn/{branch}.zip");
    let r = build_source(&branch_arg("https://github.com/o/thing", Some(GitBranchProvider::Github), Some("https://cdn/{branch}.zip")), "v");
    assert!(matches!(r, Err(BuildSourceError::ConflictingArtifactUrl)));
    let r = build_source(&branch_arg("not a url", None, None), "v");
    assert!(matches!(r, Err(BuildSourceError::InvalidRepositoryUrl(_))));
}

#[test]
fn tags_and_static_sources() {
    let s = build_source(&tags_arg(None, None, None), "1.2").unwrap().with_pinned(true);
    assert_eq!(s.version, "1.2");
    assert_eq!(s.hash, "");
    assert!(s.pinned);
    assert!(matches!(s.update_scheme, VersionUpdateScheme::GitTags { ref tag_prefix, .. } if tag_prefix.as_deref() == Some("v")));
    let arg = UpdateSchemeArg::Static {
        source_name: "foo".to_string(),
        artifact_url: "https://x/{version}.tar.gz".to_string(),
        version: "1.0".to_string(),
        unpack: true,
    };
    assert!(matches!(build_source_name(&arg), Ok(ref n) if n == "foo"));
    let s = build_source(&arg, "1.0").unwrap();
    assert!(matches!(s.update_scheme, VersionUpdateScheme::Static { unpack: true }));
}

#[test]
fn duplicate_name_is_refused() {
    let mut m = map_of(&["foo"]);
    let s = Source::new("2.0", "https://y/{version}", VersionUpdateScheme::Static { unpack: false });
    assert!(!m.insert_new("foo".to_string(), s));
    assert_eq!(m.len(), 1);
    assert_eq!(m.inner[0].1.version, "1.0");
    assert!(m.contains_key("foo"));
    assert!(!m.contains_key("bar"));
}

#[test]
fn delete_is_all_or_nothing() {
    let mut m = map_of(&["a", "b", "c"]);
    let r = delete_sources(&mut m, &vec!["a".to_string(), "zzz".to_string()]);
    assert!(matches!(r, Err(ref n) if n == "zzz"));
    assert_eq!(m.len(), 3);
    assert!(delete_sources(&mut m, &vec!["c".to_string(), "a".to_string()]).is_ok());
    assert_eq!(m.len(), 1);
    assert_eq!(m.inner[0].0, "b");
}

#[test]
fn edit_fields() {
    let mut m = map_of(&["a", "b"]);
    assert!(matches!(edit_source(&mut m, "b", EditableSourceKey::Pinned, "true"), Ok(false)));
    assert!(m.inner[1].1.pinned);
    assert!(!m.inner[0].1.pinned);
    assert!(matches!(edit_source(&mut m, "b", EditableSourceKey::Pinned, "yes"), Err(EditError::InvalidBool)));
    assert!(m.inner[1].1.pinned);
    assert!(matches!(edit_source(&mut m, "a", EditableSourceKey::ArtifactUrlTemplate, "https://z/{version}"), Ok(true)));
    assert_eq!(m.inner[0].1.artifact_url_template, "https://z/{version}");
    assert!(matches!(edit_source(&mut m, "a", EditableSourceKey::ArtifactUrlTemplate, "::"), Err(EditError::InvalidUrl(_))));
    assert_eq!(m.inner[0].1.artifact_url_template, "https://z/{version}");
    assert!(matches!(edit_source(&mut m, "nope", EditableSourceKey::Pinned, "true"), Err(EditError::NoSuchSource)));
    assert_eq!(EditableSourceKey::ArtifactUrlTemplate.name(), "artifact_url_template");
    assert_eq!(EditableSourceKey::Pinned.name(), "pinned");
}

#[test]
fn initial_version_errors() {
    let arg = UpdateSchemeArg::GitTags {
        artifact_url: "https://example.com/file-{version}".to_string(),
        version: None,
        source_name: Some("file".to_string()),
        git_repo: None,
        tag_prefix: None,
        unpack: false,
    };
    assert!(matches!(initial_version_query(&arg), Err(InitialVersionError::GetGitUrl(_))));
    assert!(matches!(build_initial_version(&arg, Ok(String::new())), Err(InitialVersionError::GetGitUrl(_))));
    let arg = branch_arg("https://github.com/o/thing", None, None);
    match initial_version_query(&arg) {
        Ok(Some(RemoteQuery::Branches { repo_url })) => assert_eq!(repo_url, "https://github.com/o/thing"),
        _ => panic!("expected a branch listing"),
    }
    let r = build_initial_version(&arg, Err(ListingFailure::CommandOutputInvalidUtf8));
    assert!(matches!(r, Err(InitialVersionError::FetchBranchCommit { ref branch, .. }) if branch == "main"));
}

#[test]
fn branch_source_errors() {
    let r = build_source(&branch_arg("file:///srv/git/thing", None, None), "v");
    assert!(matches!(r, Err(BuildSourceError::GitRepoUrlNoBase)));
    let r = build_source(&branch_arg("mailto:someone@example.com", Some(GitBranchProvider::Gitlab), None), "v");
    assert!(matches!(r, Err(BuildSourceError::GetRepositoryName)));
    let r = build_source_name(&branch_arg("mailto:someone@example.com", None, None));
    assert!(matches!(r, Err(SourceNameError::NoRepositoryName)));
}

#[test]
fn add_static_source_with_forced_hash() {
    let arg = UpdateSchemeArg::Static {
        source_name: "foo".to_string(),
        artifact_url: "https://x/{version}.tar.gz".to_string(),
        version: "1.0".to_string(),
        unpack: false,
    };
    let mut m = SourceMap::new();
    let name = build_source_name(&arg).unwrap();
    assert!(matches!(initial_version_query(&arg), Ok(None)));
    let version = build_initial_version(&arg, Ok(String::new())).unwrap();
    let mut s = build_source(&arg, &version).unwrap().with_pinned(false);
    s.hash = "abc".to_string();
    assert!(m.insert_new(name, s));
    let (name, s) = &m.inner[0];
    assert_eq!(name, "foo");
    assert_eq!(s.version, "1.0");
    assert_eq!(s.hash, "abc");
    assert_eq!(s.latest_checked_version, "1.0");
    assert!(!s.pinned);
    assert!(delete_sources(&mut m, &vec!["foo".to_string()]).is_ok());
    assert_eq!(m.len(), 0);
}

#[test]
fn zero_short_hash_length_is_refused() {
    let arg = UpdateSchemeArg::GitBranch {
        repository: "https://github.com/o/thing".to_string(),
        branch: "main".to_string(),
        source_name: None,
        short_hash_len: Some(0),
        artifact_url: None,
        provider: None,
    };
    assert!(matches!(build_source(&arg, "main-"), Err(BuildSourceError::ZeroShortHashLength)));
}

#[test]
fn branch_source_keeps_given_repository() {
    let s = build_source(&branch_arg("https://github.com/o/thing.git", None, None), "main-012345").unwrap();
    assert!(matches!(s.update_scheme, VersionUpdateScheme::GitBranch { repo_url: Some(ref u), .. } if u == "https://github.com/o/thing.git"));
}

#[test]
fn delete_refuses_repeated_name() {
    let mut m = map_of(&["foo", "bar"]);
    let r = delete_sources(&mut m, &vec!["foo".to_string(), "foo".to_string()]);
    assert!(matches!(r, Err(ref n) if n == "foo"));
    assert_eq!(m.len(), 2);
    assert_eq!(m.inner[0].0, "foo");
}

#[test]
fn source_name_errors_are_exact() {
    let r = build_source_name(&tags_arg(None, None, Some("not a url")));
    assert!(matches!(r, Err(SourceNameError::GetGitUrlFailed(InferGitUrlError::CouldNotParseUrlTemplate(_)))));
    let arg = UpdateSchemeArg::GitTags {
        artifact_url: "https://example.com/one".to_string(),
        version: None,
        source_name: None,
        git_repo: None,
        tag_prefix: None,
        unpack: false,
    };
    assert!(matches!(
        build_source_name(&arg),
        Err(SourceNameError::GetGitUrlFailed(InferGitUrlError::InsufficientPathSegments))
    ));
    let r = build_source_name(&branch_arg("not a url", None, None));
    assert!(matches!(r, Err(SourceNameError::GetGitUrlFailed(InferGitUrlError::CouldNotParseUrlTemplate(_)))));
}
