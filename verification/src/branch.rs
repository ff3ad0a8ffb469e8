//! The ahead-branch detector: which local branches hold commits that their
//! upstream lacks.
//!
//! The test is one-sided. A branch is ahead where its tip descends from the
//! tip of its upstream. A branch that has diverged, so that each side holds a
//! commit of its own, does not descend from its upstream and is reported as
//! not ahead, like a branch that is up to date.

use crate::engine::{branch_name, branch_tip, branch_upstream, descendant_of, local_branches};
use vstd::prelude::*;
use vstd::string::*;

verus! {

/// What the detector found for one local branch.
#[derive(Debug)]
pub struct BranchStatus {
    /// The branch's name.
    pub branch_name: String,
    /// Whether the branch follows a remote-tracking branch.
    pub upstream_present: bool,
    /// Whether the branch's tip descends from its upstream's tip. False
    /// means "not ahead", which is not "up to date": the branch may be level
    /// with its upstream, behind it, or diverged from it. Where
    /// `upstream_present` is false this says nothing, and is false.
    pub is_ahead: bool,
}

impl BranchStatus {
    /// A branch without upstream is not marked ahead.
    pub open spec fn wf(&self) -> bool {
        self.is_ahead ==> self.upstream_present
    }

    /// Whether the branch belongs in the list of branches to push.
    pub open spec fn counts_as_ahead(&self) -> bool {
        self.upstream_present && self.is_ahead
    }

    /// Whether the branch belongs in the list of branches to push.
    pub fn needs_push(&self) -> (ahead: bool)
        ensures
            ahead == self.counts_as_ahead(),
    {
        self.upstream_present && self.is_ahead
    }
}

/// What the engine resolved for one local branch.
#[derive(Debug)]
pub enum BranchProbe {
    /// The branch follows no remote-tracking branch: the engine looked for
    /// one and found none.
    NoUpstream,
    /// The branch follows one. `descends` is the engine's answer to whether
    /// the commit `local_tip` has the commit `upstream_tip` among its
    /// ancestors.
    Tracking { local_tip: Vec<u8>, upstream_tip: Vec<u8>, descends: bool },
    /// The lookup of the upstream failed, a tip could not be resolved, or
    /// the ancestry could not be computed.
    Unresolved,
}

/// The length of a commit's identifier in bytes.
pub const ID_LENGTH: usize = 20;

/// The engine's error code for what is not there.
pub const CODE_NOT_FOUND: i32 = -3;

impl BranchProbe {
    /// Both tips are identifiers, and no commit descends from itself: where
    /// both tips are one commit, `descends` is false.
    pub open spec fn consistent(&self) -> bool {
        match *self {
            BranchProbe::Tracking { local_tip, upstream_tip, descends } => {
                &&& local_tip@.len() == ID_LENGTH
                &&& upstream_tip@.len() == ID_LENGTH
                &&& local_tip@ == upstream_tip@ ==> !descends
            },
            _ => true,
        }
    }
}

/// What the engine answered about one local branch, question by question.
/// An answer is `None` where the engine failed or the question was not put.
#[derive(Debug)]
pub struct BranchAnswers {
    /// What the lookup of the branch's upstream gave: `Ok` where the branch
    /// follows a remote-tracking branch, else the engine's error code.
    pub upstream: Result<(), i32>,
    /// The commit at the branch's tip.
    pub local_tip: Option<Vec<u8>>,
    /// The commit at the tip of the upstream.
    pub upstream_tip: Option<Vec<u8>>,
    /// Whether the local tip has the upstream's tip among its ancestors.
    pub descends: Option<bool>,
}

impl BranchAnswers {
    /// The tips are identifiers, and one commit is not said to descend from
    /// itself.
    pub open spec fn consistent(&self) -> bool {
        &&& self.local_tip matches Some(tip) ==> tip@.len() == ID_LENGTH
        &&& self.upstream_tip matches Some(tip) ==> tip@.len() == ID_LENGTH
        &&& (self.local_tip matches Some(local) && self.upstream_tip matches Some(upstream)
            && local@ == upstream@) ==> self.descends != Some(true)
    }
}

/// The probe that the answers amount to. A branch whose upstream is not
/// there has none, whatever the other answers are; a lookup that failed in
/// any other way leaves the branch unresolved. A branch with upstream is
/// resolved where both tips and the ancestry are there, and unresolved where
/// one of them is missing.
pub open spec fn probe_of(answers: BranchAnswers) -> BranchProbe {
    match answers.upstream {
        Err(code) => if code == CODE_NOT_FOUND {
            BranchProbe::NoUpstream
        } else {
            BranchProbe::Unresolved
        },
        Ok(_) => match (answers.local_tip, answers.upstream_tip, answers.descends) {
            (Some(local_tip), Some(upstream_tip), Some(descends)) => BranchProbe::Tracking {
                local_tip,
                upstream_tip,
                descends,
            },
            _ => BranchProbe::Unresolved,
        },
    }
}

/// A branch's name with what the engine resolved for it.
#[derive(Debug)]
pub struct NamedProbe {
    /// The branch's name.
    pub name: String,
    /// What the engine resolved.
    pub probe: BranchProbe,
}

/// The status that follows from a probe; none where the probe failed.
pub open spec fn status_of(name: String, probe: BranchProbe) -> Option<BranchStatus> {
    match probe {
        BranchProbe::NoUpstream => Some(
            BranchStatus { branch_name: name, upstream_present: false, is_ahead: false },
        ),
        BranchProbe::Tracking { local_tip, upstream_tip, descends } => Some(
            BranchStatus { branch_name: name, upstream_present: true, is_ahead: descends },
        ),
        BranchProbe::Unresolved => None,
    }
}

/// The statuses that follow from `probes`, in their order; a failed probe
/// gives none.
pub open spec fn statuses_of(probes: Seq<NamedProbe>) -> Seq<BranchStatus>
    decreases probes.len(),
{
    if probes.len() == 0 {
        Seq::empty()
    } else {
        let earlier = statuses_of(probes.drop_last());
        match status_of(probes.last().name, probes.last().probe) {
            Some(status) => earlier.push(status),
            None => earlier,
        }
    }
}

/// The names of the branches in `probes` whose probe failed, in their order.
pub open spec fn unresolved_of(probes: Seq<NamedProbe>) -> Seq<String>
    decreases probes.len(),
{
    if probes.len() == 0 {
        Seq::empty()
    } else {
        let earlier = unresolved_of(probes.drop_last());
        if probes.last().probe is Unresolved {
            earlier.push(probes.last().name)
        } else {
            earlier
        }
    }
}

/// The names of the branches in `statuses` that are ahead of their upstream,
/// in their order.
pub open spec fn ahead_names(statuses: Seq<BranchStatus>) -> Seq<String>
    decreases statuses.len(),
{
    if statuses.len() == 0 {
        Seq::empty()
    } else {
        let earlier = ahead_names(statuses.drop_last());
        if statuses.last().counts_as_ahead() {
            earlier.push(statuses.last().branch_name)
        } else {
            earlier
        }
    }
}

/// What the detector found in one repository.
#[derive(Debug)]
pub struct BranchReport {
    /// One status for each branch that could be classified.
    pub statuses: Vec<BranchStatus>,
    /// The names of the branches that could not: a warning is due for each.
    pub unresolved: Vec<String>,
    /// Whether the engine failed to list the branches at all.
    pub unreadable: bool,
}

/// The status that follows from one probe; none where the probe failed.
pub fn branch_status(name: String, probe: &BranchProbe) -> (status: Option<BranchStatus>)
    ensures
        status == status_of(name, *probe),
{
    match probe {
        BranchProbe::NoUpstream => Some(
            BranchStatus { branch_name: name, upstream_present: false, is_ahead: false },
        ),
        BranchProbe::Tracking { local_tip: _, upstream_tip: _, descends } => Some(
            BranchStatus { branch_name: name, upstream_present: true, is_ahead: *descends },
        ),
        BranchProbe::Unresolved => None,
    }
}

/// Sorts probes into statuses and warnings. No probe stops the others from
/// being classified.
pub fn report_branches(probes: Vec<NamedProbe>) -> (report: BranchReport)
    ensures
        report.statuses@ == statuses_of(probes@),
        report.unresolved@ == unresolved_of(probes@),
        !report.unreadable,
{
    let mut statuses: Vec<BranchStatus> = Vec::new();
    let mut unresolved: Vec<String> = Vec::new();
    let mut i: usize = 0;
    while i < probes.len()
        invariant
            i <= probes.len(),
            statuses@ == statuses_of(probes@.take(i as int)),
            unresolved@ == unresolved_of(probes@.take(i as int)),
        decreases probes.len() - i,
    {
        assert(probes@.take(i + 1).drop_last() == probes@.take(i as int));
        let name = probes[i].name.clone();
        match branch_status(name, &probes[i].probe) {
            Some(status) => statuses.push(status),
            None => unresolved.push(probes[i].name.clone()),
        }
        i = i + 1;
    }
    assert(probes@.take(probes.len() as int) == probes@);
    BranchReport { statuses, unresolved, unreadable: false }
}

/// The names of the branches that are ahead of their upstream.
pub fn ahead_branch_names(statuses: &Vec<BranchStatus>) -> (names: Vec<String>)
    ensures
        names@ == ahead_names(statuses@),
{
    let mut names: Vec<String> = Vec::new();
    let mut i: usize = 0;
    while i < statuses.len()
        invariant
            i <= statuses.len(),
            names@ == ahead_names(statuses@.take(i as int)),
        decreases statuses.len() - i,
    {
        assert(statuses@.take(i + 1).drop_last() == statuses@.take(i as int));
        if statuses[i].needs_push() {
            names.push(statuses[i].branch_name.clone());
        }
        i = i + 1;
    }
    assert(statuses@.take(statuses.len() as int) == statuses@);
    names
}

/// Turns the engine's answers about one branch into a probe.
pub fn resolve_probe(answers: BranchAnswers) -> (probe: BranchProbe)
    ensures
        probe == probe_of(answers),
{
    match answers.upstream {
        Err(code) => {
            if code == CODE_NOT_FOUND {
                return BranchProbe::NoUpstream;
            } else {
                return BranchProbe::Unresolved;
            }
        },
        Ok(_) => {},
    }
    match answers.local_tip {
        Some(local_tip) => match answers.upstream_tip {
            Some(upstream_tip) => match answers.descends {
                Some(descends) => BranchProbe::Tracking { local_tip, upstream_tip, descends },
                None => BranchProbe::Unresolved,
            },
            None => BranchProbe::Unresolved,
        },
        None => BranchProbe::Unresolved,
    }
}

/// The name that a branch goes by where the engine gives none.
pub open spec fn nameless() -> Seq<char> {
    "<no name found>"@
}

/// The name to report a branch under: its own, or `<no name found>` where the
/// engine gives none.
pub fn name_or_placeholder(name: Option<String>) -> (shown: String)
    ensures
        shown@ == match name {
            Some(given) => given@,
            None => nameless(),
        },
{
    match name {
        Some(given) => given,
        None => String::from_str("<no name found>"),
    }
}

/// The report that follows from the engine's listing of the branches: the
/// classification of the probes, or, where the listing failed, nothing but
/// the word that it did.
pub fn report_listing(listing: Option<Vec<NamedProbe>>) -> (report: BranchReport)
    ensures
        match listing {
            Some(probes) => {
                &&& report.statuses@ == statuses_of(probes@)
                &&& report.unresolved@ == unresolved_of(probes@)
                &&& !report.unreadable
            },
            None => {
                &&& report.statuses@.len() == 0
                &&& report.unresolved@.len() == 0
                &&& report.unreadable
            },
        },
{
    match listing {
        Some(probes) => report_branches(probes),
        None => BranchReport { statuses: Vec::new(), unresolved: Vec::new(), unreadable: true },
    }
}

/// Asks the engine about one branch: its upstream, both tips, and whether the
/// local tip descends from the upstream's. The tips are asked for only where
/// the upstream is there, the ancestry only where both tips are. What the
/// answers amount to is `probe_of`; which answers come is the engine's
/// matter, so that every probe can come back that is consistent.
pub fn probe_branch(repo: &git2::Repository, branch: &git2::Branch<'_>) -> (probe: BranchProbe)
    ensures
        probe.consistent(),
{
    let answers = match branch_upstream(branch) {
        Ok(upstream) => {
            let local_tip = branch_tip(branch);
            let upstream_tip = branch_tip(&upstream);
            let descends = match &local_tip {
                Some(local) => match &upstream_tip {
                    Some(upstream) => descendant_of(repo, local, upstream),
                    None => None,
                },
                None => None,
            };
            BranchAnswers { upstream: Ok(()), local_tip, upstream_tip, descends }
        },
        Err(code) => BranchAnswers {
            upstream: Err(code),
            local_tip: None,
            upstream_tip: None,
            descends: None,
        },
    };
    proof {
        lemma_consistent_answers(answers);
    }
    resolve_probe(answers)
}

/// Asks the engine about every local branch of `repo`. A branch that the
/// engine could not load, or whose name it cannot give, goes by the name
/// `<no name found>`. `None` where the engine cannot list the branches.
pub fn probe_local_branches(repo: &git2::Repository) -> (probes: Option<Vec<NamedProbe>>)
    ensures
        probes matches Some(found) ==> forall|i: int|
            0 <= i < found.len() ==> (#[trigger] found[i]).probe.consistent(),
{
    let branches = match local_branches(repo) {
        Some(branches) => branches,
        None => { return None; },
    };
    let mut probes: Vec<NamedProbe> = Vec::new();
    let mut i: usize = 0;
    while i < branches.len()
        invariant
            i <= branches.len(),
            forall|j: int| 0 <= j < probes.len() ==> (#[trigger] probes[j]).probe.consistent(),
        decreases branches.len() - i,
    {
        let named = match &branches[i] {
            Some(branch) => NamedProbe {
                name: name_or_placeholder(branch_name(branch)),
                probe: probe_branch(repo, branch),
            },
            None => NamedProbe { name: name_or_placeholder(None), probe: BranchProbe::Unresolved },
        };
        probes.push(named);
        i = i + 1;
    }
    Some(probes)
}

/// The detector: the status of every local branch of `repo`.
///
/// A branch without upstream is reported as such and is no error. A branch
/// whose tips or ancestry the engine cannot give is named in `unresolved` and
/// has no status, so that it is in no list of branches to push. Neither stops
/// the detector from going on to the next branch.
pub fn find_ahead_branches_in_repo(repo: &git2::Repository) -> (report: BranchReport)
    ensures
        forall|i: int| 0 <= i < report.statuses.len() ==> (#[trigger] report.statuses[i]).wf(),
        report.unreadable ==> report.statuses.len() == 0 && report.unresolved.len() == 0,
{
    let listing = probe_local_branches(repo);
    proof {
        if listing is Some {
            lemma_statuses_wf(listing.unwrap()@);
        }
    }
    report_listing(listing)
}

/// Answers that are consistent amount to a probe that is.
pub proof fn lemma_consistent_answers(answers: BranchAnswers)
    requires
        answers.consistent(),
    ensures
        probe_of(answers).consistent(),
{
}

/// Every status that follows from a probe is well formed.
pub proof fn lemma_statuses_wf(probes: Seq<NamedProbe>)
    ensures
        forall|i: int|
            0 <= i < statuses_of(probes).len() ==> (#[trigger] statuses_of(probes)[i]).wf(),
    decreases probes.len(),
{
    if probes.len() > 0 {
        lemma_statuses_wf(probes.drop_last());
        let earlier = statuses_of(probes.drop_last());
        let all = statuses_of(probes);
        assert forall|i: int| 0 <= i < all.len() implies (#[trigger] all[i]).wf() by {
            if i < earlier.len() {
                assert(all[i] == earlier[i]);
            }
        }
    }
}

/// A status that does not count as ahead adds nothing to the list of
/// branches to push, wherever it stands among the others.
pub proof fn lemma_not_ahead_adds_nothing(
    statuses: Seq<BranchStatus>,
    at: int,
    status: BranchStatus,
)
    requires
        0 <= at <= statuses.len(),
        !status.counts_as_ahead(),
    ensures
        ahead_names(statuses.insert(at, status)) == ahead_names(statuses),
    decreases statuses.len(),
{
    let grown = statuses.insert(at, status);
    if at == statuses.len() {
        assert(grown.drop_last() == statuses);
    } else {
        assert(grown.drop_last() == statuses.drop_last().insert(at, status));
        assert(grown.last() == statuses.last());
        lemma_not_ahead_adds_nothing(statuses.drop_last(), at, status);
    }
}

/// A branch without upstream has `upstream_present` false, and its status
/// adds nothing to the list of branches to push, whatever the other branches
/// are and wherever it stands among them. The probe of such a branch holds no
/// commit, so nothing of the branch's history can change this.
pub proof fn lemma_no_upstream_never_ahead(name: String, statuses: Seq<BranchStatus>, at: int)
    requires
        0 <= at <= statuses.len(),
    ensures
        status_of(name, BranchProbe::NoUpstream) matches Some(status) && !status.upstream_present
            && ahead_names(statuses.insert(at, status)) == ahead_names(statuses),
{
    let status = status_of(name, BranchProbe::NoUpstream).unwrap();
    lemma_not_ahead_adds_nothing(statuses, at, status);
}

/// A branch whose tip is its upstream's tip is not ahead.
pub proof fn lemma_equal_tips_not_ahead(name: String, probe: BranchProbe)
    requires
        probe.consistent(),
        probe matches BranchProbe::Tracking { local_tip, upstream_tip, .. } && local_tip@
            == upstream_tip@,
    ensures
        status_of(name, probe) matches Some(status) && status.upstream_present
            && !status.is_ahead,
{
}

/// Whether `name` is the name of a branch in `statuses` that is ahead.
pub open spec fn names_an_ahead_branch(statuses: Seq<BranchStatus>, name: String) -> bool {
    exists|i: int|
        0 <= i < statuses.len() && (#[trigger] statuses[i]).counts_as_ahead()
            && statuses[i].branch_name == name
}

/// The list of branches to push holds the name of every branch that is
/// ahead, and no name but of such a branch.
pub proof fn lemma_ahead_names_members(statuses: Seq<BranchStatus>)
    ensures
        forall|i: int|
            0 <= i < statuses.len() && (#[trigger] statuses[i]).counts_as_ahead() ==> ahead_names(
                statuses,
            ).contains(statuses[i].branch_name),
        forall|k: int|
            0 <= k < ahead_names(statuses).len() ==> names_an_ahead_branch(
                statuses,
                #[trigger] ahead_names(statuses)[k],
            ),
    decreases statuses.len(),
{
    if statuses.len() > 0 {
        let earlier = statuses.drop_last();
        lemma_ahead_names_members(earlier);
        let names = ahead_names(statuses);
        let before = ahead_names(earlier);
        assert forall|i: int|
            0 <= i < statuses.len() && (#[trigger] statuses[i]).counts_as_ahead()
        implies names.contains(statuses[i].branch_name) by {
            if i < earlier.len() {
                assert(earlier[i] == statuses[i]);
                let k = choose|k: int| 0 <= k < before.len() && before[k] == earlier[i].branch_name;
                assert(names[k] == before[k]);
            } else {
                assert(names[names.len() - 1] == statuses[i].branch_name);
            }
        }
        assert forall|k: int| 0 <= k < names.len() implies names_an_ahead_branch(
            statuses,
            #[trigger] names[k],
        ) by {
            if k < before.len() {
                assert(names[k] == before[k]);
                assert(names_an_ahead_branch(earlier, before[k]));
                let i = choose|i: int|
                    0 <= i < earlier.len() && (#[trigger] earlier[i]).counts_as_ahead()
                        && earlier[i].branch_name == before[k];
                assert(statuses[i] == earlier[i]);
            } else {
                assert(statuses[statuses.len() - 1].counts_as_ahead());
            }
        }
    }
}

} // verus!
