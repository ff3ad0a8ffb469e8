use git2::build::CheckoutBuilder;
use git2::{BranchType, IndexEntry, IndexTime, Oid, Repository, Signature};
use git_leave::branch::{ahead_branch_names, BranchReport, BranchStatus};
use git_leave::crawl::{Crawler, EntryKind};
use git_leave::push::{find_remote, push_refspecs, PushOutcome};
use git_leave::report::{ahead_count, build_report, summarize, RepoSummary, Warning};
use git_leave::status::StatusReport;
use std::path::Path;

fn commit_on(repo: &Repository, message: &str, parents: &[Oid]) -> Oid {
    let tree_id = repo.treebuilder(None).unwrap().write().unwrap();
    let tree = repo.find_tree(tree_id).unwrap();
    let author = Signature::now("Ada", "ada@example.org").unwrap();
    let found: Vec<git2::Commit> =
        parents.iter().map(|id| repo.find_commit(*id).unwrap()).collect();
    let refs: Vec<&git2::Commit> = found.iter().collect();
    repo.commit(Some("HEAD"), &author, &author, message, &tree, &refs).unwrap()
}

/// A repository with one commit on its branch, which follows `origin` and is
/// level with it. The remote's address leads nowhere.
fn tracking_repo(dir: &Path) -> (Repository, Oid, String) {
    let repo = Repository::init(dir).unwrap();
    let base = commit_on(&repo, "base", &[]);
    let name = repo.head().unwrap().shorthand().unwrap().to_string();
    repo.remote("origin", "/nowhere/at/all.git").unwrap();
    repo.reference(&format!("refs/remotes/origin/{}", name), base, true, "fetch").unwrap();
    repo.find_branch(&name, BranchType::Local)
        .unwrap()
        .set_upstream(Some(&format!("origin/{}", name)))
        .unwrap();
    (repo, base, name)
}

fn untracked(repo: &Repository, path: &str, data: &str) {
    let entry = IndexEntry {
        ctime: IndexTime::new(0, 0),
        mtime: IndexTime::new(0, 0),
        dev: 0,
        ino: 0,
        mode: 0o100644,
        uid: 0,
        gid: 0,
        file_size: 0,
        id: Oid::zero(),
        flags: 0,
        flags_extended: 0,
        path: path.as_bytes().to_vec(),
    };
    let mut index = repo.index().unwrap();
    index.add_frombuffer(&entry, data.as_bytes()).unwrap();
    index.write().unwrap();
    repo.checkout_index(None, Some(CheckoutBuilder::new().force())).unwrap();
    index.remove_path(Path::new(path)).unwrap();
    index.write().unwrap();
}

fn status(name: &str, upstream_present: bool, is_ahead: bool) -> BranchStatus {
    BranchStatus { branch_name: name.to_string(), upstream_present, is_ahead }
}

fn summary(path: &str, dirty: bool, statuses: Vec<BranchStatus>) -> RepoSummary {
    RepoSummary {
        root_path: path.to_string(),
        status: StatusReport { dirty, failed: false },
        branches: BranchReport { statuses, unresolved: vec![], unreadable: false },
    }
}

#[test]
fn report_lists_dirty_and_ahead_repositories() {
    let summaries = vec![
        summary("/r/a", false, vec![status("main", true, false)]),
        summary("/r/b", true, vec![status("main", false, false)]),
        summary("/r/c", true, vec![status("main", true, true), status("dev", true, true)]),
        summary("/r/d", false, vec![status("old", true, false), status("new", true, true)]),
    ];
    let report = build_report(&summaries);
    assert_eq!(report.total, 4);
    assert_eq!(report.dirty, vec!["/r/b".to_string(), "/r/c".to_string()]);
    assert_eq!(report.ahead.len(), 2);
    assert_eq!(report.ahead[0].root_path, "/r/c");
    assert_eq!(report.ahead[0].branches, vec!["main".to_string(), "dev".to_string()]);
    assert_eq!(report.ahead[1].root_path, "/r/d");
    assert_eq!(report.ahead[1].branches, vec!["new".to_string()]);
    assert!(report.warnings.is_empty());
    assert!(report.outcomes.is_empty());
    assert_eq!(ahead_count(&summaries[0]), 0);
    assert_eq!(ahead_count(&summaries[2]), 2);
}

#[test]
fn nothing_found_gives_an_empty_report() {
    let report = build_report(&vec![]);
    assert_eq!(report.total, 0);
    assert!(report.dirty.is_empty());
    assert!(report.ahead.is_empty());
    assert!(report.warnings.is_empty());
}

#[test]
fn failures_come_out_as_warnings() {
    let summaries = vec![
        RepoSummary {
            root_path: "/r/a".to_string(),
            status: StatusReport { dirty: false, failed: true },
            branches: BranchReport {
                statuses: vec![status("main", true, true)],
                unresolved: vec!["x".to_string(), "y".to_string()],
                unreadable: false,
            },
        },
        RepoSummary {
            root_path: "/r/b".to_string(),
            status: StatusReport { dirty: true, failed: false },
            branches: BranchReport { statuses: vec![], unresolved: vec![], unreadable: true },
        },
    ];
    let report = build_report(&summaries);
    assert_eq!(report.total, 2);
    assert_eq!(report.dirty, vec!["/r/b".to_string()]);
    assert_eq!(report.ahead.len(), 1);
    assert_eq!(report.warnings.len(), 4);
    assert!(matches!(&report.warnings[0],
        Warning::StatusUnreadable { root_path } if root_path == "/r/a"));
    assert!(matches!(&report.warnings[1],
        Warning::BranchUnresolved { root_path, branch } if root_path == "/r/a" && branch == "x"));
    assert!(matches!(&report.warnings[2],
        Warning::BranchUnresolved { root_path, branch } if root_path == "/r/a" && branch == "y"));
    assert!(matches!(&report.warnings[3],
        Warning::BranchesUnreadable { root_path } if root_path == "/r/b"));
}

#[test]
fn three_repositories_from_crawl_to_push() {
    let dir = tempfile::tempdir().unwrap();
    let root = dir.path().to_str().unwrap().to_string();

    tracking_repo(&dir.path().join("tidy"));
    let messy = Repository::init(dir.path().join("messy")).unwrap();
    commit_on(&messy, "start", &[]);
    untracked(&messy, "notes.txt", "draft");
    let (ahead, base, branch) = tracking_repo(&dir.path().join("ahead"));
    commit_on(&ahead, "local work", &[base]);

    let mut crawler = Crawler::new(root.clone());
    assert_eq!(crawler.next_directory(), Some(root.clone()));
    for name in ["tidy", "messy", "ahead"] {
        crawler.visit_entry(name, EntryKind::Directory);
    }
    assert_eq!(crawler.next_directory(), None);
    let found = crawler.into_found();
    assert_eq!(found.len(), 3);

    let summaries: Vec<RepoSummary> = found.iter().map(summarize).collect();
    let report = build_report(&summaries);
    assert_eq!(report.total, 3);
    assert_eq!(report.dirty, vec![format!("{}/messy", root)]);
    assert_eq!(report.ahead.len(), 1);
    assert_eq!(report.ahead[0].root_path, format!("{}/ahead", root));
    assert_eq!(report.ahead[0].branches, vec![branch.clone()]);
    assert!(report.warnings.is_empty());

    let mut report = report;
    for (handle, summary) in found.iter().zip(summaries.iter()) {
        let start = find_remote(handle.repository(), ahead_count(summary));
        assert!(!start.remotes_unreadable);
        let (mut session, remote) = (start.session, start.remote);
        if *handle.root_path() == format!("{}/ahead", root) {
            let remote = remote.unwrap();
            assert_eq!(remote.name, "origin");
            assert!(!remote.fallback);
            assert_eq!(session.outcome(), None);
            let specs = push_refspecs(&ahead_branch_names(&summary.branches.statuses));
            assert_eq!(specs, vec![format!("refs/heads/{}", branch)]);
            let result = handle
                .repository()
                .find_remote(&remote.name)
                .unwrap()
                .push(&specs, None)
                .map_err(|error| error.raw_code() as i32);
            assert!(result.is_err());
            let outcome = session.finish(result);
            assert!(
                outcome == PushOutcome::NetworkOrProtocolError
                    || outcome == PushOutcome::AuthenticationFailed
            );
            assert_eq!(session.outcome(), Some(outcome));
        } else {
            assert!(remote.is_none());
            assert_eq!(session.outcome(), Some(PushOutcome::Skipped));
        }
        report.record_push(handle.root_path().clone(), session.outcome().unwrap(), false);
    }
    assert_eq!(report.outcomes.len(), 3);
    assert_eq!(report.failed_pushes(), 1);
    for record in report.outcomes.iter() {
        if record.root_path == format!("{}/ahead", root) {
            assert!(record.outcome.failed());
        } else {
            assert_eq!(record.outcome, PushOutcome::Skipped);
        }
    }
    assert_eq!(report.total, 3);
    assert_eq!(report.dirty.len(), 1);
    assert_eq!(report.ahead.len(), 1);
}

#[test]
fn failed_pushes_are_counted() {
    let mut report = build_report(&vec![]);
    assert_eq!(report.failed_pushes(), 0);
    report.record_push("/r/a".to_string(), PushOutcome::Succeeded, false);
    report.record_push("/r/b".to_string(), PushOutcome::NoRemoteFound, false);
    report.record_push("/r/c".to_string(), PushOutcome::Skipped, false);
    report.record_push("/r/d".to_string(), PushOutcome::AuthenticationFailed, false);
    report.record_push("/r/e".to_string(), PushOutcome::NetworkOrProtocolError, false);
    report.record_push("/r/f".to_string(), PushOutcome::RejectedNonFastForward, false);
    assert_eq!(report.failed_pushes(), 4);
    assert_eq!(report.outcomes[1].root_path, "/r/b");
    assert_eq!(report.outcomes[1].outcome, PushOutcome::NoRemoteFound);
    assert!(!PushOutcome::Succeeded.failed());
    assert!(!PushOutcome::Skipped.failed());
    assert!(report.warnings.is_empty());
}

#[test]
fn unreadable_remotes_are_a_warning_beside_the_outcome() {
    let mut report = build_report(&vec![]);
    report.record_push("/r/a".to_string(), PushOutcome::NoRemoteFound, true);
    report.record_push("/r/b".to_string(), PushOutcome::NoRemoteFound, false);
    assert_eq!(report.outcomes.len(), 2);
    assert_eq!(report.failed_pushes(), 2);
    assert_eq!(report.warnings.len(), 1);
    assert!(matches!(&report.warnings[0],
        Warning::RemotesUnreadable { root_path } if root_path == "/r/a"));
}
