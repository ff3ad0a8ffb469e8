//! The run as a whole: what was found in each repository, and what the user
//! is told of all of them together.

use crate::branch::{ahead_branch_names, ahead_names, find_ahead_branches_in_repo, BranchReport};
use crate::crawl::RepositoryHandle;
use crate::push::PushOutcome;
use crate::status::{is_repo_dirty, StatusReport};
use vstd::prelude::*;

verus! {

/// What was found in one repository.
#[derive(Debug)]
pub struct RepoSummary {
    /// The path of the working tree.
    pub root_path: String,
    /// What the status classifier found.
    pub status: StatusReport,
    /// What the ahead-branch detector found.
    pub branches: BranchReport,
}

impl RepoSummary {
    /// The names of the branches that are ahead of their upstream.
    pub open spec fn ahead(&self) -> Seq<String> {
        ahead_names(self.branches.statuses@)
    }

    /// Whether the repository is one to push: it is where a branch is ahead.
    pub open spec fn needs_push(&self) -> bool {
        self.ahead().len() > 0
    }
}

/// A repository with the branches that are ahead of their upstream.
#[derive(Debug)]
pub struct AheadRepo {
    /// The path of the working tree.
    pub root_path: String,
    /// The names of the branches, of which there is at least one.
    pub branches: Vec<String>,
}

impl View for AheadRepo {
    type V = (String, Seq<String>);

    open spec fn view(&self) -> (String, Seq<String>) {
        (self.root_path, self.branches@)
    }
}

/// Something that went wrong in one repository and left it out of a list.
#[derive(Debug)]
pub enum Warning {
    /// The status of the working tree could not be listed; the repository
    /// counts as not dirty.
    StatusUnreadable { root_path: String },
    /// The branches could not be listed; the repository counts as having
    /// none ahead.
    BranchesUnreadable { root_path: String },
    /// The tips or the ancestry of one branch could not be resolved; the
    /// branch counts as not ahead.
    BranchUnresolved { root_path: String, branch: String },
    /// The remotes could not be listed; the push ended as if there were
    /// none.
    RemotesUnreadable { root_path: String },
}

/// How the push of one repository ended.
#[derive(Debug)]
pub struct PushRecord {
    /// The path of the working tree.
    pub root_path: String,
    /// How the push ended.
    pub outcome: PushOutcome,
}

/// What the user is told at the end of a run.
#[derive(Debug)]
pub struct Report {
    /// The number of repositories found.
    pub total: usize,
    /// The paths of the dirty repositories.
    pub dirty: Vec<String>,
    /// The repositories with a branch ahead of its upstream.
    pub ahead: Vec<AheadRepo>,
    /// What went wrong on the way.
    pub warnings: Vec<Warning>,
    /// How each push ended, in the order in which they were made. Empty
    /// where no push was asked for.
    pub outcomes: Vec<PushRecord>,
}

/// The number of repositories among `records` that were to be pushed and
/// were not.
pub open spec fn failures(records: Seq<PushRecord>) -> nat
    decreases records.len(),
{
    if records.len() == 0 {
        0
    } else {
        failures(records.drop_last()) + if records.last().outcome.is_failure() {
            1nat
        } else {
            0nat
        }
    }
}

impl Report {
    /// Notes how the push of the repository at `root_path` ended, and, where
    /// its remotes could not be listed, a warning that says so. Nothing else
    /// in the report changes, whatever the outcome is.
    pub fn record_push(&mut self, root_path: String, outcome: PushOutcome, remotes_unreadable: bool)
        ensures
            final(self).outcomes@ == old(self).outcomes@.push(PushRecord { root_path, outcome }),
            final(self).warnings@ == if remotes_unreadable {
                old(self).warnings@.push(Warning::RemotesUnreadable { root_path })
            } else {
                old(self).warnings@
            },
            final(self).total == old(self).total,
            final(self).dirty == old(self).dirty,
            final(self).ahead == old(self).ahead,
    {
        if remotes_unreadable {
            self.warnings.push(Warning::RemotesUnreadable { root_path: root_path.clone() });
        }
        self.outcomes.push(PushRecord { root_path, outcome });
    }

    /// The number of repositories that were to be pushed and were not.
    pub fn failed_pushes(&self) -> (count: usize)
        ensures
            count == failures(self.outcomes@),
    {
        let mut count: usize = 0;
        let mut i: usize = 0;
        while i < self.outcomes.len()
            invariant
                i <= self.outcomes.len(),
                count == failures(self.outcomes@.take(i as int)),
                count <= i,
            decreases self.outcomes.len() - i,
        {
            assert(self.outcomes@.take(i + 1).drop_last() == self.outcomes@.take(i as int));
            if self.outcomes[i].outcome.failed() {
                count = count + 1;
            }
            i = i + 1;
        }
        assert(self.outcomes@.take(self.outcomes.len() as int) == self.outcomes@);
        count
    }
}

/// The paths of the dirty repositories among `summaries`, in their order.
pub open spec fn dirty_paths(summaries: Seq<RepoSummary>) -> Seq<String>
    decreases summaries.len(),
{
    if summaries.len() == 0 {
        Seq::empty()
    } else {
        let earlier = dirty_paths(summaries.drop_last());
        if summaries.last().status.dirty {
            earlier.push(summaries.last().root_path)
        } else {
            earlier
        }
    }
}

/// The repositories among `summaries` with a branch ahead of its upstream,
/// each with the names of those branches, in their order.
pub open spec fn ahead_repos(summaries: Seq<RepoSummary>) -> Seq<(String, Seq<String>)>
    decreases summaries.len(),
{
    if summaries.len() == 0 {
        Seq::empty()
    } else {
        let earlier = ahead_repos(summaries.drop_last());
        if summaries.last().needs_push() {
            earlier.push((summaries.last().root_path, summaries.last().ahead()))
        } else {
            earlier
        }
    }
}

/// One warning for each of `names`, a branch of the repository at `root_path`
/// that could not be resolved.
pub open spec fn unresolved_warnings(root_path: String, names: Seq<String>) -> Seq<Warning> {
    names.map_values(|name: String| Warning::BranchUnresolved { root_path, branch: name })
}

/// The warnings that one repository gives rise to.
pub open spec fn warnings_of(summary: RepoSummary) -> Seq<Warning> {
    let status = if summary.status.failed {
        seq![Warning::StatusUnreadable { root_path: summary.root_path }]
    } else {
        Seq::empty()
    };
    let listing = if summary.branches.unreadable {
        seq![Warning::BranchesUnreadable { root_path: summary.root_path }]
    } else {
        Seq::empty()
    };
    status + listing + unresolved_warnings(summary.root_path, summary.branches.unresolved@)
}

/// The warnings that `summaries` give rise to, in their order.
pub open spec fn all_warnings(summaries: Seq<RepoSummary>) -> Seq<Warning>
    decreases summaries.len(),
{
    if summaries.len() == 0 {
        Seq::empty()
    } else {
        all_warnings(summaries.drop_last()) + warnings_of(summaries.last())
    }
}

/// Classifies one repository: its working tree and its branches. The two
/// questions are independent, and a failure of either leaves the other's
/// answer as it is.
pub fn summarize(handle: &RepositoryHandle) -> (summary: RepoSummary)
    ensures
        summary.root_path@ == handle.path(),
        summary.status.failed ==> !summary.status.dirty,
        forall|i: int|
            0 <= i < summary.branches.statuses.len() ==> (
            #[trigger] summary.branches.statuses[i]).wf(),
{
    RepoSummary {
        root_path: handle.root_path().clone(),
        status: is_repo_dirty(handle.repository()),
        branches: find_ahead_branches_in_repo(handle.repository()),
    }
}

/// Adds the warnings of one repository to `warnings`.
fn add_warnings(warnings: &mut Vec<Warning>, summary: &RepoSummary)
    ensures
        final(warnings)@ == old(warnings)@ + warnings_of(*summary),
{
    let ghost before = warnings@;
    if summary.status.failed {
        warnings.push(Warning::StatusUnreadable { root_path: summary.root_path.clone() });
    }
    if summary.branches.unreadable {
        warnings.push(Warning::BranchesUnreadable { root_path: summary.root_path.clone() });
    }
    let ghost head = warnings@;
    let ghost names = summary.branches.unresolved@;
    let mut i: usize = 0;
    while i < summary.branches.unresolved.len()
        invariant
            i <= summary.branches.unresolved.len(),
            names == summary.branches.unresolved@,
            warnings@ == head + unresolved_warnings(summary.root_path, names.take(i as int)),
        decreases summary.branches.unresolved.len() - i,
    {
        warnings.push(
            Warning::BranchUnresolved {
                root_path: summary.root_path.clone(),
                branch: summary.branches.unresolved[i].clone(),
            },
        );
        assert(warnings@ =~= head + unresolved_warnings(summary.root_path, names.take(i + 1)));
        i = i + 1;
    }
    assert(names.take(names.len() as int) == names);
    assert(warnings@ =~= before + warnings_of(*summary));
}

/// Puts the report together: how many repositories there are, which are
/// dirty, which hold branches ahead of their upstream, and what went wrong.
pub fn build_report(summaries: &Vec<RepoSummary>) -> (report: Report)
    ensures
        report.total == summaries.len(),
        report.dirty@ == dirty_paths(summaries@),
        report.ahead@.map_values(|repo: AheadRepo| repo@) == ahead_repos(summaries@),
        report.warnings@ == all_warnings(summaries@),
        report.outcomes@.len() == 0,
{
    let mut dirty: Vec<String> = Vec::new();
    let mut ahead: Vec<AheadRepo> = Vec::new();
    let mut warnings: Vec<Warning> = Vec::new();
    let mut i: usize = 0;
    while i < summaries.len()
        invariant
            i <= summaries.len(),
            dirty@ == dirty_paths(summaries@.take(i as int)),
            ahead@.map_values(|repo: AheadRepo| repo@) == ahead_repos(summaries@.take(i as int)),
            warnings@ == all_warnings(summaries@.take(i as int)),
        decreases summaries.len() - i,
    {
        assert(summaries@.take(i + 1).drop_last() == summaries@.take(i as int));
        let summary = &summaries[i];
        if summary.status.dirty {
            dirty.push(summary.root_path.clone());
        }
        let names = ahead_branch_names(&summary.branches.statuses);
        if names.len() > 0 {
            let ghost earlier = ahead@.map_values(|repo: AheadRepo| repo@);
            ahead.push(AheadRepo { root_path: summary.root_path.clone(), branches: names });
            assert(ahead@.map_values(|repo: AheadRepo| repo@) =~= earlier.push(
                (summary.root_path, summary.ahead()),
            ));
        }
        add_warnings(&mut warnings, summary);
        i = i + 1;
    }
    assert(summaries@.take(summaries.len() as int) == summaries@);
    Report { total: summaries.len(), dirty, ahead, warnings, outcomes: Vec::new() }
}

/// The number of branches of one repository that are ahead of their
/// upstream: zero says that there is nothing to push.
pub fn ahead_count(summary: &RepoSummary) -> (count: usize)
    ensures
        count == summary.ahead().len(),
{
    ahead_branch_names(&summary.branches.statuses).len()
}

} // verus!
