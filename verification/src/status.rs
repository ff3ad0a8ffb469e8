//! The status classifier: whether a working tree holds changes.
//!
//! The engine lists one set of status flags for each path that it has
//! something to say about. A path that is merely ignored does not count; any
//! other entry makes the working tree dirty.

use crate::engine::status_flags;
use vstd::prelude::*;

verus! {

/// The flags of a path that is ignored and nothing else.
pub const STATUS_IGNORED: u32 = 16384;

/// Whether an entry with these flags is a change.
pub open spec fn is_change(flags: u32) -> bool {
    flags != STATUS_IGNORED
}

/// Whether a working tree with these entries is dirty: it is where at least
/// one entry is a change.
pub open spec fn dirty(entries: Seq<u32>) -> bool {
    exists|i: int| 0 <= i < entries.len() && is_change(#[trigger] entries[i])
}

/// What the classifier found in one repository.
#[derive(Clone, Copy, Debug, PartialEq, Eq, Structural)]
pub struct StatusReport {
    /// Whether the working tree holds a change.
    pub dirty: bool,
    /// Whether the engine failed to list the entries: a warning is due.
    pub failed: bool,
}

/// The report that follows from the engine's listing. A listing that failed
/// counts as not dirty.
pub open spec fn report_of(listing: Option<Seq<u32>>) -> StatusReport {
    match listing {
        Some(entries) => StatusReport { dirty: dirty(entries), failed: false },
        None => StatusReport { dirty: false, failed: true },
    }
}

/// Tests whether a working tree with these entries is dirty.
pub fn entries_dirty(entries: &Vec<u32>) -> (found: bool)
    ensures
        found == dirty(entries@),
{
    let mut i: usize = 0;
    while i < entries.len()
        invariant
            i <= entries.len(),
            forall|j: int| 0 <= j < i ==> !is_change(#[trigger] entries@[j]),
        decreases entries.len() - i,
    {
        if entries[i] != STATUS_IGNORED {
            assert(is_change(entries@[i as int]));
            return true;
        }
        i = i + 1;
    }
    false
}

/// Classifies the engine's listing of one repository.
pub fn classify_listing(listing: &Option<Vec<u32>>) -> (report: StatusReport)
    ensures
        report == report_of(
            match *listing {
                Some(entries) => Some(entries@),
                None => None,
            },
        ),
{
    match listing {
        Some(entries) => StatusReport { dirty: entries_dirty(entries), failed: false },
        None => StatusReport { dirty: false, failed: true },
    }
}

/// The classifier: asks the engine for the status of every path of `repo`
/// and classifies the listing, so that the report is what `report_of` makes
/// of it. The report says whether any entry is a change. Where the engine
/// cannot list them, the repository counts as not dirty and the report says
/// that the listing failed, so that a warning can be given. Branches and
/// remotes are not looked at.
pub fn is_repo_dirty(repo: &git2::Repository) -> (report: StatusReport)
    ensures
        report.failed ==> !report.dirty,
        exists|listing: Option<Seq<u32>>| report == #[trigger] report_of(listing),
{
    let listing = status_flags(repo);
    classify_listing(&listing)
}

/// A working tree without changes is not dirty; one more change, wherever it
/// is listed, makes it dirty; and taking that change back gives the former
/// answer again.
pub proof fn lemma_change_and_revert(entries: Seq<u32>, at: int, flags: u32)
    requires
        0 <= at <= entries.len(),
        is_change(flags),
    ensures
        (forall|i: int| 0 <= i < entries.len() ==> !is_change(#[trigger] entries[i])) ==> !dirty(
            entries,
        ),
        dirty(entries.insert(at, flags)),
        entries.insert(at, flags).remove(at) == entries,
        dirty(entries.insert(at, flags).remove(at)) == dirty(entries),
{
    let changed = entries.insert(at, flags);
    assert(is_change(changed[at]));
    assert(changed.remove(at) =~= entries);
}

/// Entries that are ignored make no difference: with or without one of them,
/// wherever it is listed, the answer is the same.
pub proof fn lemma_ignored_entry_is_no_change(entries: Seq<u32>, at: int)
    requires
        0 <= at <= entries.len(),
    ensures
        dirty(entries.insert(at, STATUS_IGNORED)) == dirty(entries),
{
    let grown = entries.insert(at, STATUS_IGNORED);
    if dirty(entries) {
        let i = choose|i: int| 0 <= i < entries.len() && is_change(#[trigger] entries[i]);
        if i < at {
            assert(is_change(grown[i]));
        } else {
            assert(grown[i + 1] == entries[i]);
            assert(is_change(grown[i + 1]));
        }
    }
    if dirty(grown) {
        let i = choose|i: int| 0 <= i < grown.len() && is_change(#[trigger] grown[i]);
        if i < at {
            assert(is_change(entries[i]));
        } else {
            assert(grown[i] == entries[i - 1]);
            assert(is_change(entries[i - 1]));
        }
    }
}

} // verus!
