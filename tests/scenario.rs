use kunai::add::{AddAction, AddArgs, AddError, AddRun, UpdateSchemeArg};
use kunai::delete::delete_sources;
use kunai::run::{RunAction, UpdateRun};
use kunai::source::{GetArtifactHashError, Source, SourceMap};
use kunai::update::{Outcome, SourceResult, UpdateArgs, UpdatePinArgs, UpdateReport, VersionDiff};
use kunai::updater::{RemoteQuery, VersionUpdateScheme};

fn static_foo(force_hash: Option<&str>) -> AddArgs {
    AddArgs {
        force_hash: force_hash.map(|h| h.to_string()),
        pinned: false,
        update_scheme: UpdateSchemeArg::Static {
            source_name: "foo".to_string(),
            artifact_url: "https://x/{version}.tar.gz".to_string(),
            version: "1.0".to_string(),
            unpack: false,
        },
    }
}

fn plain_update() -> UpdateArgs {
    UpdateArgs {
        source_names: Vec::new(),
        refetch: false,
        force: false,
        show_updated: false,
        json: false,
        pin: UpdatePinArgs { pin: false, unpin: false },
    }
}

#[test]
fn add_update_delete_static_source() {
    let mut add = AddRun::new(SourceMap::new(), static_foo(Some("abc")));
    assert!(matches!(add.start(), AddAction::Added));
    let map = add.sources;
    assert_eq!(map.len(), 1);
    {
        let (name, s) = &map.inner[0];
        assert_eq!(name, "foo");
        assert_eq!(s.version, "1.0");
        assert_eq!(s.hash, "abc");
        assert_eq!(s.latest_checked_version, "1.0");
        assert!(!s.pinned);
    }

    let mut run = UpdateRun::new(map, plain_update());
    let mut fetches = 0;
    let mut action = run.resume();
    loop {
        action = match action {
            RunAction::Fetch(f) => {
                assert_eq!(f.url, "https://x/1.0.tar.gz");
                fetches += 1;
                run.give_hash(Ok("abc".to_string()))
            }
            RunAction::Finished => break,
            _ => panic!("unexpected action"),
        };
    }
    assert_eq!(fetches, 1);
    assert_eq!(run.report.up_to_date, 1);
    assert_eq!(run.report.updated.len(), 0);
    assert!(!run.report.changed);
    let mut map = run.sources;
    assert_eq!(map.inner[0].1.hash, "abc");
    assert_eq!(map.inner[0].1.version, "1.0");

    assert!(delete_sources(&mut map, &vec!["foo".to_string()]).is_ok());
    assert_eq!(map.len(), 0);
}

#[test]
fn add_fetches_hash_when_not_forced() {
    let mut add = AddRun::new(SourceMap::new(), static_foo(None));
    let action = add.start();
    let action = match action {
        AddAction::Fetch(f) => {
            assert_eq!(f.url, "https://x/1.0.tar.gz");
            assert!(!f.unpack);
            add.give_hash(Ok("sha256-x".to_string()))
        }
        _ => panic!("expected a fetch"),
    };
    assert!(matches!(action, AddAction::Added));
    assert_eq!(add.sources.inner[0].1.hash, "sha256-x");
}

#[test]
fn add_fails_on_hash_error_and_duplicate() {
    let mut add = AddRun::new(SourceMap::new(), static_foo(None));
    assert!(matches!(add.start(), AddAction::Fetch(_)));
    let r = add.give_hash(Err(GetArtifactHashError::PrefetchFailed { url: "https://x/1.0.tar.gz".to_string() }));
    assert!(matches!(r, AddAction::Failed(AddError::Hash(_))));
    assert_eq!(add.sources.len(), 0);

    let mut map = SourceMap::new();
    assert!(map.insert_new("foo".to_string(), Source::new("0.1", "https://y/{version}", VersionUpdateScheme::Static { unpack: false })));
    let mut add = AddRun::new(map, static_foo(Some("abc")));
    assert!(matches!(add.start(), AddAction::Failed(AddError::AlreadyExists(ref n)) if n == "foo"));
    assert_eq!(add.sources.len(), 1);
    assert_eq!(add.sources.inner[0].1.version, "0.1");
}

#[test]
fn add_git_tags_source_lists_tags() {
    let args = AddArgs {
        force_hash: None,
        pinned: true,
        update_scheme: UpdateSchemeArg::GitTags {
            artifact_url: "https://github.com/owner/tool/archive/v{version}.tar.gz".to_string(),
            version: None,
            source_name: None,
            git_repo: None,
            tag_prefix: Some("v".to_string()),
            unpack: true,
        },
    };
    let mut add = AddRun::new(SourceMap::new(), args);
    let action = match add.start() {
        AddAction::List(RemoteQuery::Tags { repo_url }) => {
            assert_eq!(repo_url, "https://github.com/owner/tool");
            add.give_listing(Ok("a\trefs/tags/v1.0.0\nb\trefs/tags/v1.2.0\nc\trefs/tags/1.9.9\nd\trefs/tags/v2.0.0-rc1\n".to_string()))
        }
        _ => panic!("expected a tag listing"),
    };
    let action = match action {
        AddAction::Fetch(f) => {
            assert_eq!(f.url, "https://github.com/owner/tool/archive/v2.0.0-rc1.tar.gz");
            assert!(f.unpack);
            add.give_hash(Ok("h".to_string()))
        }
        _ => panic!("expected a fetch"),
    };
    assert!(matches!(action, AddAction::Added));
    let (name, s) = &add.sources.inner[0];
    assert_eq!(name, "tool");
    assert_eq!(s.version, "2.0.0-rc1");
    assert!(s.pinned);
}

#[test]
fn run_over_empty_lockfile_finishes_unchanged() {
    let mut run = UpdateRun::new(SourceMap::new(), plain_update());
    assert!(matches!(run.resume(), RunAction::Finished));
    assert!(!run.report.changed);
    assert_eq!(run.report.up_to_date, 0);
    assert_eq!(run.sources.len(), 0);
}

#[test]
fn report_keeps_one_entry_per_name() {
    let mut r = UpdateReport::new();
    let first = VersionDiff::new("1".to_string(), "2".to_string());
    let second = VersionDiff::new("2".to_string(), "3".to_string());
    r.record("a".to_string(), SourceResult { outcome: Outcome::Updated(first), changed: true });
    r.record("b".to_string(), SourceResult { outcome: Outcome::UpToDate, changed: false });
    r.record("a".to_string(), SourceResult { outcome: Outcome::Updated(second), changed: true });
    assert_eq!(r.updated.len(), 1);
    let (name, diff) = r.updated.inner.get_index(0).unwrap();
    assert_eq!(name, "a");
    assert_eq!(diff.old, "2");
    assert_eq!(diff.new, "3");
}
