use kunai::delete::delete_sources;
use kunai::run::{RunAction, UpdateRun};
use kunai::source::{GetArtifactHashError, Source, SourceMap};
use kunai::update::{
    on_fetched, on_listing, start_source, Outcome, SourceFailure, SourceResult, Step,
    UpdateAbort, UpdateArgs, UpdatePinArgs, UpdateReport, VersionDiff,
};
use kunai::updater::{ListingFailure, RemoteQuery, VersionUpdateScheme};

fn args(refetch: bool, force: bool, pin: bool, unpin: bool) -> UpdateArgs {
    UpdateArgs {
        source_names: Vec::new(),
        refetch,
        force,
        show_updated: false,
        json: false,
        pin: UpdatePinArgs { pin, unpin },
    }
}

fn tags_source() -> Source {
    let mut s = Source::new(
        "1.0.0",
        "https://github.com/owner/repo/archive/v{version}.tar.gz",
        VersionUpdateScheme::GitTags { repo_url: None, tag_prefix: Some("v".to_string()), unpack: true },
    );
    s.hash = "sha256-old".to_string();
    s
}

const LISTING: &str = "aaaa\trefs/tags/v1.0.0\nbbbb\trefs/tags/v1.1.0\n";

/// Runs one source through the engine against a fixed remote side.
fn run(source: &mut Source, a: &UpdateArgs, listing: &str, hash: Result<&str, bool>) -> SourceResult {
    let step = match start_source(source, a) {
        Step::List(_) => on_listing(source, a, Ok(listing.to_string())),
        other => other,
    };
    match step {
        Step::Done(r) => r,
        Step::Fetch(f) => {
            let fetched = match hash {
                Ok(h) => Ok(h.to_string()),
                Err(true) => Err(GetArtifactHashError::PrefetchFailed { url: f.url.clone() }),
                Err(false) => Err(GetArtifactHashError::SerdeIoError("broken pipe".to_string())),
            };
            on_fetched(source, &f.candidate, fetched)
        }
        Step::List(_) => panic!("listed twice"),
        Step::Abort(_) => panic!("aborted"),
    }
}

#[test]
fn git_tags_source_is_listed_then_fetched() {
    let mut s = tags_source();
    let a = args(false, false, false, false);
    match start_source(&mut s, &a) {
        Step::List(RemoteQuery::Tags { repo_url }) => assert_eq!(repo_url, "https://github.com/owner/repo"),
        _ => panic!("expected a tag listing"),
    }
    match on_listing(&s, &a, Ok(LISTING.to_string())) {
        Step::Fetch(f) => {
            assert_eq!(f.url, "https://github.com/owner/repo/archive/v1.1.0.tar.gz");
            assert_eq!(f.candidate, "1.1.0");
            assert!(f.unpack);
        }
        _ => panic!("expected a fetch"),
    }
}

#[test]
fn version_and_hash_change_together() {
    let mut s = tags_source();
    let r = run(&mut s, &args(false, false, false, false), LISTING, Ok("sha256-new"));
    assert!(matches!(r.outcome, Outcome::Updated(ref d) if d.old == "1.0.0" && d.new == "1.1.0"));
    assert!(r.changed);
    assert_eq!(s.version, "1.1.0");
    assert_eq!(s.hash, "sha256-new");
    assert_eq!(s.latest_checked_version, "1.1.0");
}

#[test]
fn failed_prefetch_only_advances_checked_version() {
    let mut s = tags_source();
    let r = run(&mut s, &args(false, false, false, false), LISTING, Err(true));
    assert!(matches!(r.outcome, Outcome::Failed(SourceFailure::Prefetch(GetArtifactHashError::PrefetchFailed { .. }))));
    assert!(r.changed);
    assert_eq!(s.version, "1.0.0");
    assert_eq!(s.hash, "sha256-old");
    assert_eq!(s.latest_checked_version, "1.1.0");
    // The same unusable candidate is not tried again.
    let r = run(&mut s, &args(false, false, false, false), LISTING, Err(true));
    assert!(matches!(r.outcome, Outcome::UpToDate));
    assert!(!r.changed);
}

#[test]
fn other_fetch_failure_leaves_source_alone() {
    let mut s = tags_source();
    let r = run(&mut s, &args(false, false, false, false), LISTING, Err(false));
    assert!(matches!(r.outcome, Outcome::Failed(SourceFailure::Prefetch(GetArtifactHashError::SerdeIoError(_)))));
    assert!(!r.changed);
    assert_eq!(s.latest_checked_version, "1.0.0");
    assert_eq!(s.version, "1.0.0");
}

#[test]
fn second_run_is_up_to_date() {
    let mut s = tags_source();
    let a = args(false, false, false, false);
    run(&mut s, &a, LISTING, Ok("sha256-new"));
    let r = run(&mut s, &a, LISTING, Ok("sha256-new"));
    assert!(matches!(r.outcome, Outcome::UpToDate));
    assert!(!r.changed);
    let a = args(true, false, false, false);
    let r = run(&mut s, &a, LISTING, Ok("sha256-new"));
    assert!(matches!(r.outcome, Outcome::UpToDate));
    assert!(!r.changed);
    assert_eq!(s.version, "1.1.0");
    assert_eq!(s.hash, "sha256-new");
}

#[test]
fn refetch_with_new_hash_is_hash_only_update() {
    let mut s = tags_source();
    s.latest_checked_version = "1.1.0".to_string();
    s.version = "1.1.0".to_string();
    let r = run(&mut s, &args(true, false, false, false), LISTING, Ok("sha256-other"));
    assert!(matches!(r.outcome, Outcome::Updated(ref d) if d.old == d.new));
    assert_eq!(s.hash, "sha256-other");
}

#[test]
fn pinned_source_is_skipped_unchanged() {
    let mut s = tags_source();
    s.pinned = true;
    let r = run(&mut s, &args(true, false, false, false), LISTING, Ok("sha256-new"));
    assert!(matches!(r.outcome, Outcome::Skipped));
    assert!(!r.changed);
    assert_eq!(s.version, "1.0.0");
    assert_eq!(s.hash, "sha256-old");
    assert!(s.pinned);
    // Forced, it is reconciled.
    let r = run(&mut s, &args(false, true, false, false), LISTING, Ok("sha256-new"));
    assert!(matches!(r.outcome, Outcome::Updated(_)));
}

#[test]
fn pin_and_unpin_do_not_update() {
    let mut s = tags_source();
    let r = run(&mut s, &args(false, false, true, false), LISTING, Ok("sha256-new"));
    assert!(matches!(r.outcome, Outcome::Updated(ref d) if d.old == "1.0.0" && d.new == "1.0.0"));
    assert!(s.pinned);
    assert_eq!(s.version, "1.0.0");
    let r = run(&mut s, &args(false, false, true, false), LISTING, Ok("sha256-new"));
    assert!(matches!(r.outcome, Outcome::UpToDate));
    let r = run(&mut s, &args(false, false, false, true), LISTING, Ok("sha256-new"));
    assert!(matches!(r.outcome, Outcome::Updated(_)));
    assert!(!s.pinned);
    assert_eq!(s.hash, "sha256-old");
}

#[test]
fn unresolvable_repository_is_a_source_error() {
    let mut s = Source::new(
        "1.0",
        "https://example.com/file-{version}.zip",
        VersionUpdateScheme::GitTags { repo_url: None, tag_prefix: None, unpack: false },
    );
    let r = run(&mut s, &args(false, false, false, false), LISTING, Ok("h"));
    assert!(matches!(r.outcome, Outcome::Failed(SourceFailure::Resolve(_))));
}

#[test]
fn no_fitting_tag_is_a_source_error() {
    let mut s = tags_source();
    let r = run(&mut s, &args(false, false, false, false), "aaaa\trefs/tags/nightly\n", Ok("h"));
    assert!(matches!(r.outcome, Outcome::Failed(SourceFailure::Resolve(_))));
    assert!(!r.changed);
}

#[test]
fn failed_listing_or_missing_branch_aborts() {
    let s = tags_source();
    let a = args(false, false, false, false);
    let failure = ListingFailure::CommandFailed { full_command: "git ls-remote".to_string(), io_error: "not found".to_string() };
    assert!(matches!(on_listing(&s, &a, Err(failure)), Step::Abort(UpdateAbort::Resolve(_))));
    let b = Source::new(
        "main-abcdef",
        "https://github.com/o/r/archive/{branch}.tar.gz",
        VersionUpdateScheme::GitBranch { repo_url: Some("https://github.com/o/r".to_string()), branch: "main".to_string(), short_hash_length: 6 },
    );
    assert!(matches!(on_listing(&b, &a, Ok("abc\trefs/heads/dev\n".to_string())), Step::Abort(UpdateAbort::Resolve(_))));
}

#[test]
fn branch_source_follows_head() {
    let mut b = Source::new(
        "main-111111",
        "https://github.com/o/r/archive/{branch}.tar.gz",
        VersionUpdateScheme::GitBranch { repo_url: Some("https://github.com/o/r".to_string()), branch: "main".to_string(), short_hash_length: 6 },
    );
    let a = args(false, false, false, false);
    match start_source(&mut b, &a) {
        Step::List(RemoteQuery::Branches { repo_url }) => assert_eq!(repo_url, "https://github.com/o/r"),
        _ => panic!("expected a branch listing"),
    }
    let r = run(&mut b, &a, "2222222222\trefs/heads/main\n", Ok("h2"));
    assert!(matches!(r.outcome, Outcome::Updated(ref d) if d.new == "main-222222"));
    assert_eq!(b.version, "main-222222");
}

#[test]
fn broken_template_aborts_the_run() {
    let mut s = Source::new("1.0", "no url {version}", VersionUpdateScheme::Static { unpack: false });
    match start_source(&mut s, &args(false, false, false, false)) {
        Step::Abort(UpdateAbort::BuildUrl(e)) => assert_eq!(e.full_url, "no url 1.0"),
        _ => panic!("expected an abort"),
    }
}

#[test]
fn report_counts_outcomes() {
    let mut r = UpdateReport::new();
    r.record("a".to_string(), SourceResult { outcome: Outcome::UpToDate, changed: false });
    r.record("b".to_string(), SourceResult { outcome: Outcome::Skipped, changed: false });
    r.record(
        "c".to_string(),
        SourceResult { outcome: Outcome::Failed(SourceFailure::Prefetch(GetArtifactHashError::PrefetchFailed { url: "u".to_string() })), changed: true },
    );
    r.record("d".to_string(), SourceResult { outcome: Outcome::Updated(VersionDiff::new("1".to_string(), "2".to_string())), changed: true });
    assert_eq!(r.up_to_date, 1);
    assert_eq!(r.skipped, 2);
    assert_eq!(r.errors, 1);
    assert!(r.changed);
    assert_eq!(r.updated.len(), 1);
    let (name, diff) = r.updated.inner.get_index(0).unwrap();
    assert_eq!(name, "d");
    assert_eq!(diff.describe(), "1 -> 2");
    assert_eq!(VersionDiff::new("1".to_string(), "1".to_string()).describe(), "changed hash");
}

#[test]
fn selection_and_pin_guard() {
    let mut a = args(false, false, true, false);
    assert!(a.selects("anything"));
    assert!(a.pin_needs_force());
    a.source_names = vec!["foo".to_string()];
    assert!(a.selects("foo"));
    assert!(!a.selects("bar"));
    assert!(!a.pin_needs_force());
}

#[test]
fn static_source_add_update_delete() {
    let mut map = SourceMap::new();
    let mut foo = Source::new("1.0", "https://x/{version}.tar.gz", VersionUpdateScheme::Static { unpack: false });
    foo.hash = "abc".to_string();
    assert!(map.insert_new("foo".to_string(), foo));
    {
        let (name, s) = &map.inner[0];
        assert_eq!(name, "foo");
        assert_eq!(s.version, "1.0");
        assert_eq!(s.hash, "abc");
        assert_eq!(s.latest_checked_version, "1.0");
        assert!(!s.pinned);
    }
    let a = args(false, false, false, false);
    let s = &mut map.inner[0].1;
    let step = start_source(s, &a);
    let r = match step {
        Step::Fetch(f) => {
            assert_eq!(f.url, "https://x/1.0.tar.gz");
            on_fetched(s, &f.candidate, Ok("abc".to_string()))
        }
        _ => panic!("expected a fetch"),
    };
    assert!(matches!(r.outcome, Outcome::UpToDate));
    assert!(!r.changed);
    assert_eq!(map.inner[0].1.hash, "abc");
    assert_eq!(map.inner[0].1.version, "1.0");
    assert!(delete_sources(&mut map, &vec!["foo".to_string()]).is_ok());
    assert_eq!(map.len(), 0);
}

#[test]
fn run_walks_selected_sources_in_order() {
    let mut map = SourceMap::new();
    let mut a = Source::new("1.0", "https://x/a-{version}.tar.gz", VersionUpdateScheme::Static { unpack: false });
    a.hash = "ha".to_string();
    assert!(map.insert_new("a".to_string(), a));
    assert!(map.insert_new("b".to_string(), tags_source()));
    let mut c = tags_source();
    c.pinned = true;
    assert!(map.insert_new("c".to_string(), c));
    assert!(map.insert_new("d".to_string(), tags_source()));
    let mut u = args(false, false, false, false);
    u.source_names = vec!["a".to_string(), "b".to_string(), "c".to_string()];
    let mut run = UpdateRun::new(map, u);
    let mut asked = Vec::new();
    let mut action = run.resume();
    loop {
        action = match action {
            RunAction::List(RemoteQuery::Tags { repo_url }) => {
                asked.push(format!("tags {repo_url}"));
                run.give_listing(Ok(LISTING.to_string()))
            }
            RunAction::List(RemoteQuery::Branches { .. }) => panic!("no branch source"),
            RunAction::Fetch(f) => {
                asked.push(format!("fetch {}", f.url));
                let h = if f.url.contains("/a-") { "ha" } else { "hb" };
                run.give_hash(Ok(h.to_string()))
            }
            RunAction::Finished => break,
            RunAction::Aborted(_) => panic!("aborted"),
        };
    }
    assert_eq!(
        asked,
        vec![
            "fetch https://x/a-1.0.tar.gz".to_string(),
            "tags https://github.com/owner/repo".to_string(),
            "fetch https://github.com/owner/repo/archive/v1.1.0.tar.gz".to_string(),
        ]
    );
    assert_eq!(run.report.up_to_date, 1);
    assert_eq!(run.report.skipped, 1);
    assert_eq!(run.report.errors, 0);
    assert_eq!(run.report.updated.len(), 1);
    assert!(run.report.changed);
    assert_eq!(run.sources.inner[1].1.version, "1.1.0");
    assert_eq!(run.sources.inner[1].1.hash, "hb");
    assert_eq!(run.sources.inner[2].1.version, "1.0.0");
    assert_eq!(run.sources.inner[3].1.version, "1.0.0");
}

#[test]
fn run_stops_on_abort() {
    let mut map = SourceMap::new();
    assert!(map.insert_new("bad".to_string(), Source::new("1", "no url {version}", VersionUpdateScheme::Static { unpack: false })));
    let mut run = UpdateRun::new(map, args(false, false, false, false));
    assert!(matches!(run.resume(), RunAction::Aborted(UpdateAbort::BuildUrl(_))));
    assert!(!run.report.changed);
}
