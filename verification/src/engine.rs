//! The version-control engine: every call that the library makes into `git2`.
//!
//! Nothing here is proved. Each function is one question to the engine, and
//! its contract is what the library believes of the answer. What a repository
//! holds lies on disk and may change between two calls, so most answers come
//! without any promise and the callers are verified for every answer.

use vstd::prelude::*;

verus! {

/// `git2::Repository`: an opened repository. The library carries it from one
/// call to the next and sees nothing inside it.
#[verifier::external_type_specification]
#[verifier::external_body]
pub struct ExRepository(git2::Repository);

/// `git2::Branch`: a branch of an opened repository, carried in the same way.
#[verifier::external_type_specification]
#[verifier::external_body]
pub struct ExBranch<'repo>(git2::Branch<'repo>);

/// `git2::Config`: an opened configuration file, carried in the same way.
#[verifier::external_type_specification]
#[verifier::external_body]
pub struct ExConfig(git2::Config);

/// `std::path::PathBuf`: the path of a configuration file as the engine gives
/// it, handed back to the engine unread.
#[verifier::external_type_specification]
#[verifier::external_body]
pub struct ExPathBuf(std::path::PathBuf);

/// `git2::Repository::open`: the repository whose root is `path`, or `None`
/// where the engine finds none there. Nothing is claimed of the answer.
#[verifier::external_body]
pub(crate) fn open_repository(path: &str) -> (opened: Option<git2::Repository>) {
    match git2::Repository::open(path) {
        Ok(repo) => Some(repo),
        Err(_) => None,
    }
}

/// `git2::Repository::is_bare`: whether the repository has no working tree.
/// Nothing is claimed of the answer.
#[verifier::external_body]
pub(crate) fn repository_is_bare(repo: &git2::Repository) -> (bare: bool) {
    repo.is_bare()
}

/// `git2::Repository::statuses` with the engine's default options: the status
/// flags of every path that the engine reports, one number per path, or `None`
/// where the engine fails. Nothing is claimed of the answer.
#[verifier::external_body]
pub(crate) fn status_flags(repo: &git2::Repository) -> (flags: Option<Vec<u32>>) {
    match repo.statuses(None) {
        Ok(list) => {
            let mut flags = Vec::new();
            for entry in list.iter() {
                flags.push(entry.status().bits());
            }
            Some(flags)
        },
        Err(_) => None,
    }
}

/// `git2::Repository::branches` for local branches: one item per branch that
/// the engine walks over, `None` in place of a branch that it could not load;
/// or `None` for the whole where the walk cannot start. Nothing is claimed of
/// the answer.
#[verifier::external_body]
pub(crate) fn local_branches<'repo>(repo: &'repo git2::Repository) -> (found: Option<
    Vec<Option<git2::Branch<'repo>>>,
>) {
    match repo.branches(Some(git2::BranchType::Local)) {
        Ok(walk) => {
            let mut found = Vec::new();
            for item in walk {
                found.push(item.ok().map(|pair| pair.0));
            }
            Some(found)
        },
        Err(_) => None,
    }
}

/// `git2::Branch::name`: the branch's name, or `None` where the engine fails
/// or the name is not UTF-8. Nothing is claimed of the answer.
#[verifier::external_body]
pub(crate) fn branch_name(branch: &git2::Branch<'_>) -> (name: Option<String>) {
    match branch.name() {
        Ok(Some(name)) => Some(String::from(name)),
        Ok(None) => None,
        Err(_) => None,
    }
}

/// `git2::Branch::upstream`: the remote-tracking branch that `branch` is
/// configured to follow, or the engine's error code, as
/// `git2::Error::raw_code` gives it, where the engine gives none. Nothing is
/// claimed of the answer.
#[verifier::external_body]
pub(crate) fn branch_upstream<'repo>(branch: &git2::Branch<'repo>) -> (upstream: Result<
    git2::Branch<'repo>,
    i32,
>) {
    match branch.upstream() {
        Ok(upstream) => Ok(upstream),
        Err(error) => Err(error.raw_code() as i32),
    }
}

/// `git2::Reference::peel_to_commit` on the branch's reference, then
/// `git2::Commit::id` and `git2::Oid::as_bytes`: the identifier of the commit
/// at the branch's tip, or `None` where the engine cannot reach a commit.
///
/// The one claim is the length: `as_bytes` gives a slice of 20 bytes.
#[verifier::external_body]
pub(crate) fn branch_tip(branch: &git2::Branch<'_>) -> (tip: Option<Vec<u8>>)
    ensures
        tip matches Some(id) ==> id@.len() == 20,
{
    match branch.get().peel_to_commit() {
        Ok(commit) => Some(commit.id().as_bytes().to_vec()),
        Err(_) => None,
    }
}

/// `git2::Repository::graph_descendant_of`, on identifiers that
/// `git2::Oid::from_bytes` makes of the bytes given: whether `commit` has
/// `ancestor` among its ancestors, or `None` where the bytes are no identifier
/// or the engine fails.
///
/// The one claim is that a commit is not its own descendant. `git2` hands the
/// question to libgit2's `git_graph_descendant_of`, which answers 0 for equal
/// identifiers before it looks at the graph, and whose header says that a
/// commit is not considered a descendant of itself.
#[verifier::external_body]
pub(crate) fn descendant_of(
    repo: &git2::Repository,
    commit: &Vec<u8>,
    ancestor: &Vec<u8>,
) -> (found: Option<bool>)
    ensures
        commit@ == ancestor@ ==> found != Some(true),
{
    match (git2::Oid::from_bytes(commit), git2::Oid::from_bytes(ancestor)) {
        (Ok(commit), Ok(ancestor)) => repo.graph_descendant_of(commit, ancestor).ok(),
        _ => None,
    }
}

/// `git2::Repository::remotes`: the names of the repository's remotes in the
/// engine's order, `None` in place of a name that is not UTF-8; or `None` for
/// the whole where the engine fails. Nothing is claimed of the answer.
#[verifier::external_body]
pub(crate) fn remote_names(repo: &git2::Repository) -> (names: Option<Vec<Option<String>>>) {
    match repo.remotes() {
        Ok(list) => {
            let mut names = Vec::new();
            for name in list.iter() {
                names.push(name.map(String::from));
            }
            Some(names)
        },
        Err(_) => None,
    }
}

/// `git2::Config::find_global`: the path of the user's configuration file, or
/// `None` where the engine finds none. Nothing is claimed of the answer.
#[verifier::external_body]
pub(crate) fn find_global_config() -> (path: Option<std::path::PathBuf>) {
    git2::Config::find_global().ok()
}

/// `git2::Config::open`: the configuration file at `path`, or the engine's
/// message, as `git2::Error::message` gives it, where the engine cannot open
/// it. Nothing is claimed of the answer.
#[verifier::external_body]
pub(crate) fn open_config(path: &std::path::PathBuf) -> (config: Result<git2::Config, String>) {
    match git2::Config::open(path) {
        Ok(config) => Ok(config),
        Err(error) => Err(String::from(error.message())),
    }
}

/// `git2::Config::get_string`: the value of `key`, or `None` where the key is
/// missing or its value is not UTF-8. Nothing is claimed of the answer.
#[verifier::external_body]
pub(crate) fn config_string(config: &git2::Config, key: &str) -> (value: Option<String>) {
    config.get_string(key).ok()
}

} // verus!
