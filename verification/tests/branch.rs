use git2::{BranchType, Oid, Repository, Signature};
use git_leave::branch::{
    ahead_branch_names, branch_status, find_ahead_branches_in_repo, name_or_placeholder,
    probe_branch, probe_local_branches, report_branches, report_listing, resolve_probe,
    BranchAnswers, BranchProbe, BranchStatus, NamedProbe, CODE_NOT_FOUND, ID_LENGTH,
};

fn commit_on(repo: &Repository, update: Option<&str>, message: &str, parents: &[Oid]) -> Oid {
    let tree_id = repo.treebuilder(None).unwrap().write().unwrap();
    let tree = repo.find_tree(tree_id).unwrap();
    let author = Signature::now("Ada", "ada@example.org").unwrap();
    let found: Vec<git2::Commit> =
        parents.iter().map(|id| repo.find_commit(*id).unwrap()).collect();
    let refs: Vec<&git2::Commit> = found.iter().collect();
    repo.commit(update, &author, &author, message, &tree, &refs).unwrap()
}

fn head_branch(repo: &Repository) -> String {
    repo.head().unwrap().shorthand().unwrap().to_string()
}

/// A repository with one commit on its branch, which follows `origin`.
fn tracking_repo(dir: &std::path::Path) -> (Repository, Oid, String) {
    let repo = Repository::init(dir).unwrap();
    let base = commit_on(&repo, Some("HEAD"), "base", &[]);
    let name = head_branch(&repo);
    repo.remote("origin", "/nowhere/at/all.git").unwrap();
    repo.reference(&format!("refs/remotes/origin/{}", name), base, true, "fetch").unwrap();
    repo.find_branch(&name, BranchType::Local)
        .unwrap()
        .set_upstream(Some(&format!("origin/{}", name)))
        .unwrap();
    (repo, base, name)
}

fn status(name: &str, upstream_present: bool, is_ahead: bool) -> BranchStatus {
    BranchStatus { branch_name: name.to_string(), upstream_present, is_ahead }
}

#[test]
fn branch_without_upstream_is_reported_and_not_ahead() {
    let dir = tempfile::tempdir().unwrap();
    let repo = Repository::init(dir.path()).unwrap();
    let first = commit_on(&repo, Some("HEAD"), "one", &[]);
    commit_on(&repo, Some("HEAD"), "two", &[first]);
    let name = head_branch(&repo);
    let report = find_ahead_branches_in_repo(&repo);
    assert!(!report.unreadable);
    assert!(report.unresolved.is_empty());
    assert_eq!(report.statuses.len(), 1);
    assert_eq!(report.statuses[0].branch_name, name);
    assert!(!report.statuses[0].upstream_present);
    assert!(!report.statuses[0].is_ahead);
    assert!(ahead_branch_names(&report.statuses).is_empty());
}

#[test]
fn branch_at_its_upstream_is_not_ahead() {
    let dir = tempfile::tempdir().unwrap();
    let (repo, _base, name) = tracking_repo(dir.path());
    let report = find_ahead_branches_in_repo(&repo);
    assert_eq!(report.statuses.len(), 1);
    assert_eq!(report.statuses[0].branch_name, name);
    assert!(report.statuses[0].upstream_present);
    assert!(!report.statuses[0].is_ahead);
    assert!(ahead_branch_names(&report.statuses).is_empty());
}

#[test]
fn branch_one_commit_ahead_is_ahead() {
    let dir = tempfile::tempdir().unwrap();
    let (repo, base, name) = tracking_repo(dir.path());
    commit_on(&repo, Some("HEAD"), "local work", &[base]);
    let report = find_ahead_branches_in_repo(&repo);
    assert_eq!(report.statuses.len(), 1);
    assert!(report.statuses[0].upstream_present);
    assert!(report.statuses[0].is_ahead);
    assert_eq!(ahead_branch_names(&report.statuses), vec![name]);
}

#[test]
fn branch_behind_its_upstream_is_not_ahead() {
    let dir = tempfile::tempdir().unwrap();
    let (repo, base, name) = tracking_repo(dir.path());
    let theirs = commit_on(&repo, None, "their work", &[base]);
    repo.reference(&format!("refs/remotes/origin/{}", name), theirs, true, "fetch").unwrap();
    let report = find_ahead_branches_in_repo(&repo);
    assert!(report.statuses[0].upstream_present);
    assert!(!report.statuses[0].is_ahead);
}

#[test]
fn diverged_branch_is_reported_as_not_ahead() {
    let dir = tempfile::tempdir().unwrap();
    let (repo, base, name) = tracking_repo(dir.path());
    let ours = commit_on(&repo, Some("HEAD"), "our work", &[base]);
    let theirs = commit_on(&repo, None, "their work", &[base]);
    repo.reference(&format!("refs/remotes/origin/{}", name), theirs, true, "fetch").unwrap();
    assert_eq!(repo.graph_ahead_behind(ours, theirs).unwrap(), (1, 1));
    let report = find_ahead_branches_in_repo(&repo);
    assert_eq!(report.statuses.len(), 1);
    assert!(report.statuses[0].upstream_present);
    assert!(!report.statuses[0].is_ahead);
    assert!(ahead_branch_names(&report.statuses).is_empty());
}

#[test]
fn probe_holds_both_tips() {
    let dir = tempfile::tempdir().unwrap();
    let (repo, base, name) = tracking_repo(dir.path());
    let ours = commit_on(&repo, Some("HEAD"), "local work", &[base]);
    let branch = repo.find_branch(&name, BranchType::Local).unwrap();
    match probe_branch(&repo, &branch) {
        BranchProbe::Tracking { local_tip, upstream_tip, descends } => {
            assert_eq!(local_tip, ours.as_bytes().to_vec());
            assert_eq!(upstream_tip, base.as_bytes().to_vec());
            assert_eq!(local_tip.len(), ID_LENGTH);
            assert_eq!(upstream_tip.len(), ID_LENGTH);
            assert!(descends);
        }
        other => panic!("unexpected probe {:?}", other),
    }
}

#[test]
fn upstream_lookup_that_fails_is_not_taken_for_no_upstream() {
    let dir = tempfile::tempdir().unwrap();
    let (repo, _base, name) = tracking_repo(dir.path());
    let remote_side = repo.find_branch(&format!("origin/{}", name), BranchType::Remote).unwrap();
    let error = remote_side.upstream().err().unwrap();
    assert_ne!(error.raw_code() as i32, CODE_NOT_FOUND);
    assert!(matches!(probe_branch(&repo, &remote_side), BranchProbe::Unresolved));
    let start = repo.find_commit(_base).unwrap();
    let side = repo.branch("side", &start, false).unwrap();
    assert_eq!(side.upstream().err().unwrap().raw_code() as i32, CODE_NOT_FOUND);
    assert!(matches!(probe_branch(&repo, &side), BranchProbe::NoUpstream));
}

#[test]
fn every_local_branch_is_probed() {
    let dir = tempfile::tempdir().unwrap();
    let (repo, base, name) = tracking_repo(dir.path());
    let start = repo.find_commit(base).unwrap();
    repo.branch("side", &start, false).unwrap();
    commit_on(&repo, Some("HEAD"), "local work", &[base]);
    let probes = probe_local_branches(&repo).unwrap();
    let mut names: Vec<String> = probes.iter().map(|named| named.name.clone()).collect();
    names.sort();
    let mut expected = vec![name.clone(), "side".to_string()];
    expected.sort();
    assert_eq!(names, expected);
    let report = find_ahead_branches_in_repo(&repo);
    assert_eq!(report.statuses.len(), 2);
    assert_eq!(ahead_branch_names(&report.statuses), vec![name]);
    for status in report.statuses.iter() {
        assert_eq!(status.upstream_present, status.branch_name != "side");
    }
}

#[test]
fn unborn_repository_has_no_branches() {
    let dir = tempfile::tempdir().unwrap();
    let repo = Repository::init(dir.path()).unwrap();
    let report = find_ahead_branches_in_repo(&repo);
    assert!(!report.unreadable);
    assert!(report.statuses.is_empty());
    assert!(report.unresolved.is_empty());
}

const FOUND: Result<(), i32> = Ok(());
const MISSING: Result<(), i32> = Err(CODE_NOT_FOUND);

fn answers(
    upstream: Result<(), i32>,
    local_tip: Option<u8>,
    upstream_tip: Option<u8>,
    descends: Option<bool>,
) -> BranchAnswers {
    BranchAnswers {
        upstream,
        local_tip: local_tip.map(|byte| vec![byte; ID_LENGTH]),
        upstream_tip: upstream_tip.map(|byte| vec![byte; ID_LENGTH]),
        descends,
    }
}

#[test]
fn answers_without_upstream_are_no_upstream() {
    assert!(matches!(resolve_probe(answers(MISSING, None, None, None)), BranchProbe::NoUpstream));
    assert!(matches!(
        resolve_probe(answers(MISSING, Some(2), Some(1), Some(true))),
        BranchProbe::NoUpstream
    ));
}

#[test]
fn full_answers_are_a_comparison() {
    match resolve_probe(answers(FOUND, Some(2), Some(1), Some(true))) {
        BranchProbe::Tracking { local_tip, upstream_tip, descends } => {
            assert_eq!(local_tip, vec![2; ID_LENGTH]);
            assert_eq!(upstream_tip, vec![1; ID_LENGTH]);
            assert!(descends);
        }
        other => panic!("unexpected probe {:?}", other),
    }
    assert!(matches!(
        resolve_probe(answers(FOUND, Some(1), Some(1), Some(false))),
        BranchProbe::Tracking { descends: false, .. }
    ));
}

#[test]
fn missing_answer_leaves_the_branch_unresolved() {
    for partial in [
        answers(FOUND, None, Some(1), None),
        answers(FOUND, Some(2), None, None),
        answers(FOUND, Some(2), Some(1), None),
        answers(FOUND, None, None, None),
        answers(FOUND, None, None, Some(true)),
    ] {
        assert!(matches!(resolve_probe(partial), BranchProbe::Unresolved));
    }
}

#[test]
fn failed_upstream_lookup_leaves_the_branch_unresolved() {
    for code in [-1, -5, -12, 0, 3] {
        assert!(matches!(
            resolve_probe(answers(Err(code), None, None, None)),
            BranchProbe::Unresolved
        ));
    }
    assert_eq!(git2::Error::from_str("x").raw_code() as i32, -1);
    let missing = git2::Error::new(git2::ErrorCode::NotFound, git2::ErrorClass::Reference, "x");
    assert_eq!(missing.raw_code() as i32, CODE_NOT_FOUND);
}

#[test]
fn branch_without_name_gets_the_placeholder() {
    assert_eq!(name_or_placeholder(Some("main".to_string())), "main");
    assert_eq!(name_or_placeholder(Some(String::new())), "");
    assert_eq!(name_or_placeholder(None), "<no name found>");
}

#[test]
fn failed_listing_is_an_empty_report_that_says_so() {
    let report = report_listing(None);
    assert!(report.unreadable);
    assert!(report.statuses.is_empty());
    assert!(report.unresolved.is_empty());
    let report = report_listing(Some(vec![
        NamedProbe { name: "lonely".to_string(), probe: BranchProbe::NoUpstream },
        NamedProbe { name: "broken".to_string(), probe: BranchProbe::Unresolved },
    ]));
    assert!(!report.unreadable);
    assert_eq!(report.statuses.len(), 1);
    assert_eq!(report.statuses[0].branch_name, "lonely");
    assert_eq!(report.unresolved, vec!["broken".to_string()]);
}

#[test]
fn status_follows_from_probe() {
    let none = branch_status("main".to_string(), &BranchProbe::NoUpstream).unwrap();
    assert_eq!((none.upstream_present, none.is_ahead), (false, false));
    let ahead = branch_status(
        "main".to_string(),
        &BranchProbe::Tracking {
            local_tip: vec![2; 20],
            upstream_tip: vec![1; 20],
            descends: true,
        },
    )
    .unwrap();
    assert_eq!(ahead.branch_name, "main");
    assert_eq!((ahead.upstream_present, ahead.is_ahead), (true, true));
    let level = branch_status(
        "main".to_string(),
        &BranchProbe::Tracking {
            local_tip: vec![1; 20],
            upstream_tip: vec![1; 20],
            descends: false,
        },
    )
    .unwrap();
    assert_eq!((level.upstream_present, level.is_ahead), (true, false));
    assert!(branch_status("main".to_string(), &BranchProbe::Unresolved).is_none());
}

#[test]
fn failed_probe_is_a_warning_and_stops_nothing() {
    let probes = vec![
        NamedProbe { name: "broken".to_string(), probe: BranchProbe::Unresolved },
        NamedProbe { name: "lonely".to_string(), probe: BranchProbe::NoUpstream },
        NamedProbe {
            name: "work".to_string(),
            probe: BranchProbe::Tracking {
                local_tip: vec![2; 20],
                upstream_tip: vec![1; 20],
                descends: true,
            },
        },
    ];
    let report = report_branches(probes);
    assert!(!report.unreadable);
    assert_eq!(report.unresolved, vec!["broken".to_string()]);
    assert_eq!(report.statuses.len(), 2);
    assert_eq!(report.statuses[0].branch_name, "lonely");
    assert_eq!(report.statuses[1].branch_name, "work");
    assert_eq!(ahead_branch_names(&report.statuses), vec!["work".to_string()]);
}

#[test]
fn ahead_list_keeps_order_and_skips_the_rest() {
    let statuses = vec![
        status("a", true, true),
        status("b", false, false),
        status("c", true, false),
        status("d", true, true),
        status("e", false, true),
    ];
    assert_eq!(ahead_branch_names(&statuses), vec!["a".to_string(), "d".to_string()]);
    assert!(statuses[0].needs_push());
    assert!(!statuses[4].needs_push());
}
