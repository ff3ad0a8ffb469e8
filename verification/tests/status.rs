use git2::build::CheckoutBuilder;
use git2::{IndexEntry, IndexTime, Oid, Repository, ResetType, Signature};
use git_leave::status::{
    classify_listing, entries_dirty, is_repo_dirty, StatusReport, STATUS_IGNORED,
};
use std::path::Path;

const CLEAN: StatusReport = StatusReport { dirty: false, failed: false };
const DIRTY: StatusReport = StatusReport { dirty: true, failed: false };

fn stage(repo: &Repository, path: &str, data: &str) {
    let entry = IndexEntry {
        ctime: IndexTime::new(0, 0),
        mtime: IndexTime::new(0, 0),
        dev: 0,
        ino: 0,
        mode: 0o100644,
        uid: 0,
        gid: 0,
        file_size: 0,
        id: Oid::zero(),
        flags: 0,
        flags_extended: 0,
        path: path.as_bytes().to_vec(),
    };
    let mut index = repo.index().unwrap();
    index.add_frombuffer(&entry, data.as_bytes()).unwrap();
    index.write().unwrap();
}

fn unstage(repo: &Repository, path: &str) {
    let mut index = repo.index().unwrap();
    index.remove_path(Path::new(path)).unwrap();
    index.write().unwrap();
}

fn write_out(repo: &Repository) {
    repo.checkout_index(None, Some(CheckoutBuilder::new().force())).unwrap();
}

fn commit(repo: &Repository, message: &str) -> Oid {
    let tree_id = repo.index().unwrap().write_tree().unwrap();
    let tree = repo.find_tree(tree_id).unwrap();
    let author = Signature::now("Ada", "ada@example.org").unwrap();
    let parent = repo.head().ok().map(|head| head.peel_to_commit().unwrap());
    let parents: Vec<&git2::Commit> = parent.iter().collect();
    repo.commit(Some("HEAD"), &author, &author, message, &tree, &parents).unwrap()
}

fn untracked(repo: &Repository, path: &str, data: &str) {
    stage(repo, path, data);
    write_out(repo);
    unstage(repo, path);
}

#[test]
fn ignored_flag_is_the_engines() {
    assert_eq!(git2::Status::IGNORED.bits(), STATUS_IGNORED);
}

#[test]
fn empty_listing_is_clean() {
    assert!(!entries_dirty(&vec![]));
}

#[test]
fn ignored_entries_do_not_count() {
    assert!(!entries_dirty(&vec![STATUS_IGNORED, STATUS_IGNORED]));
}

#[test]
fn one_change_makes_dirty_and_reverting_makes_clean() {
    let clean = vec![STATUS_IGNORED];
    let mut changed = clean.clone();
    changed.insert(0, git2::Status::WT_NEW.bits());
    assert!(!entries_dirty(&clean));
    assert!(entries_dirty(&changed));
    changed.remove(0);
    assert!(!entries_dirty(&changed));
}

#[test]
fn change_is_found_wherever_it_stands() {
    assert!(entries_dirty(&vec![STATUS_IGNORED, STATUS_IGNORED, 256]));
    assert!(entries_dirty(&vec![1, STATUS_IGNORED]));
}

#[test]
fn ignored_with_another_flag_counts() {
    assert!(entries_dirty(&vec![STATUS_IGNORED | 1]));
}

#[test]
fn failed_listing_is_not_dirty_but_reported() {
    assert_eq!(classify_listing(&None), StatusReport { dirty: false, failed: true });
    assert_eq!(classify_listing(&Some(vec![128])), StatusReport { dirty: true, failed: false });
    assert_eq!(classify_listing(&Some(vec![])), StatusReport { dirty: false, failed: false });
}

#[test]
fn fresh_repository_is_clean() {
    let dir = tempfile::tempdir().unwrap();
    let repo = Repository::init(dir.path()).unwrap();
    assert_eq!(is_repo_dirty(&repo), CLEAN);
}

#[test]
fn untracked_file_makes_dirty_and_its_removal_clean() {
    let dir = tempfile::tempdir().unwrap();
    let repo = Repository::init(dir.path()).unwrap();
    commit(&repo, "start");
    assert_eq!(is_repo_dirty(&repo), CLEAN);
    untracked(&repo, "notes.txt", "draft");
    assert_eq!(repo.status_file(Path::new("notes.txt")).unwrap(), git2::Status::WT_NEW);
    assert_eq!(is_repo_dirty(&repo), DIRTY);
    repo.checkout_head(Some(CheckoutBuilder::new().force().remove_untracked(true))).unwrap();
    assert_eq!(is_repo_dirty(&repo), CLEAN);
}

#[test]
fn tracked_change_makes_dirty_and_reset_makes_clean() {
    let dir = tempfile::tempdir().unwrap();
    let repo = Repository::init(dir.path()).unwrap();
    stage(&repo, "a.txt", "one");
    let first = commit(&repo, "one");
    write_out(&repo);
    assert_eq!(is_repo_dirty(&repo), CLEAN);
    stage(&repo, "a.txt", "two");
    assert_eq!(is_repo_dirty(&repo), DIRTY);
    let head = repo.find_object(first, None).unwrap();
    repo.reset(&head, ResetType::Hard, None).unwrap();
    assert_eq!(is_repo_dirty(&repo), CLEAN);
}

#[test]
fn ignored_file_leaves_repository_clean() {
    let dir = tempfile::tempdir().unwrap();
    let repo = Repository::init(dir.path()).unwrap();
    commit(&repo, "start");
    repo.add_ignore_rule("*.log").unwrap();
    untracked(&repo, "build.log", "noise");
    assert_eq!(repo.status_file(Path::new("build.log")).unwrap(), git2::Status::IGNORED);
    assert_eq!(is_repo_dirty(&repo), CLEAN);
    untracked(&repo, "main.c", "int main;");
    assert_eq!(is_repo_dirty(&repo), DIRTY);
}
