//! The crawler: finds the working trees below a root directory.
//!
//! Reading a directory is the caller's part. The crawler says which directory
//! to read next, takes its entries one by one, and decides for each what
//! becomes of it: a directory that opens as a working tree is a result and is
//! not entered; one that opens as a bare repository is dropped and not entered;
//! any other directory is entered later; and what is no directory is passed
//! over.
//!
//! An entry is taken up once: a name that the directory gave before is
//! passed over, and so is a name that is empty or holds a separator. So,
//! whatever the entries are, no result lies inside another result, and no
//! place is a result twice.

use crate::engine::{open_repository, repository_is_bare};
use crate::path::{
    is_entry_name, join_path, lemma_entries_unrelated, lemma_unrelated_paths,
    lemma_unrelated_to_entries, path_inside, path_string, place_path, scattered, unrelated,
    valid_name, valid_place, Location,
};
use vstd::prelude::*;
use vstd::string::*;

verus! {

/// What kind of thing a directory entry is.
#[derive(Clone, Copy, Debug, PartialEq, Eq, Structural)]
pub enum EntryKind {
    /// A directory, or a link to one.
    Directory,
    /// Anything else.
    Other,
    /// The entry could not be examined.
    Unreadable,
}

/// A repository that was opened and found to have a working tree. Only a
/// probe makes one.
pub struct WorkTree {
    repo: git2::Repository,
}

impl WorkTree {
    /// The repository.
    pub closed spec fn opened(&self) -> git2::Repository {
        self.repo
    }

    /// The repository.
    pub fn repository(&self) -> (repo: &git2::Repository)
        ensures
            *repo == self.opened(),
    {
        &self.repo
    }
}

/// What opening a directory as a repository gave.
pub enum Probe {
    /// The directory is no repository.
    NotRepository,
    /// The directory is a repository without working tree.
    Bare,
    /// The directory is the root of a working tree.
    WorkTree(WorkTree),
}

/// A probe without the repository that it may hold.
#[derive(Clone, Copy, Debug, PartialEq, Eq, Structural)]
pub enum ProbeKind {
    /// The directory is no repository.
    NotRepository,
    /// The directory is a repository without working tree.
    Bare,
    /// The directory is the root of a working tree.
    WorkTree,
}

impl Probe {
    /// Which of the three answers the probe is.
    pub open spec fn kind(&self) -> ProbeKind {
        match self {
            Probe::NotRepository => ProbeKind::NotRepository,
            Probe::Bare => ProbeKind::Bare,
            Probe::WorkTree(_) => ProbeKind::WorkTree,
        }
    }

    /// Which of the three answers the probe is.
    pub fn answer(&self) -> (kind: ProbeKind)
        ensures
            kind == self.kind(),
    {
        match self {
            Probe::NotRepository => ProbeKind::NotRepository,
            Probe::Bare => ProbeKind::Bare,
            Probe::WorkTree(_) => ProbeKind::WorkTree,
        }
    }
}

/// What a repository that was opened is as a probe, where `bare` is the
/// engine's answer to whether it lacks a working tree: a bare one is dropped
/// here, any other is kept as a working tree.
pub(crate) fn probe_of_opened(repo: git2::Repository, bare: bool) -> (probe: Probe)
    ensures
        match probe {
            Probe::WorkTree(tree) => !bare && tree.opened() == repo,
            Probe::Bare => bare,
            Probe::NotRepository => false,
        },
{
    if bare {
        Probe::Bare
    } else {
        Probe::WorkTree(WorkTree { repo })
    }
}

/// Opens the directory at `path` as a repository and says what it is. What
/// lies on disk decides: each of the three answers can come back for any
/// path.
pub fn probe_directory(path: &str) -> (probe: Probe) {
    match open_repository(path) {
        Some(repo) => {
            let bare = repository_is_bare(&repo);
            probe_of_opened(repo, bare)
        },
        None => Probe::NotRepository,
    }
}

/// An opened working tree with its place in the crawl. A handle is made of a
/// probe that found a working tree, and of no other: it never stands for a
/// bare repository.
pub struct RepositoryHandle {
    root_path: String,
    location: Vec<String>,
    repo: git2::Repository,
}

impl RepositoryHandle {
    /// The path of the working tree.
    pub closed spec fn path(&self) -> Seq<char> {
        self.root_path@
    }

    /// Where the working tree lies below the root of the crawl.
    pub closed spec fn place(&self) -> Location {
        self.location.deep_view()
    }

    /// The repository that the handle holds.
    pub closed spec fn opened(&self) -> git2::Repository {
        self.repo
    }

    /// The path of the working tree.
    pub fn root_path(&self) -> (path: &String)
        ensures
            path@ == self.path(),
    {
        &self.root_path
    }

    /// The names of the directories that lead from the root of the crawl to
    /// the working tree.
    pub fn location(&self) -> (names: &Vec<String>)
        ensures
            names.deep_view() == self.place(),
    {
        &self.location
    }

    /// The repository itself.
    pub fn repository(&self) -> (repo: &git2::Repository)
        ensures
            *repo == self.opened(),
    {
        &self.repo
    }
}

/// Where each of `handles` lies.
pub open spec fn places_of(handles: Seq<RepositoryHandle>) -> Seq<Location> {
    handles.map_values(|handle: RepositoryHandle| handle.place())
}

/// A crawl at one moment.
pub struct CrawlState {
    /// The path of the root.
    pub root: Seq<char>,
    /// The working trees found so far.
    pub found: Seq<Location>,
    /// The directories that are still to be read; the last one is read next.
    pub pending: Seq<Location>,
    /// The directory whose entries are being taken, if any.
    pub current: Option<Location>,
    /// The names of the entries of that directory that became a result or
    /// were put down to be read.
    pub taken: Seq<Seq<char>>,
    /// Whether the root could not be read.
    pub aborted: bool,
}

impl CrawlState {
    /// The results and the directories still to be read.
    pub open spec fn places(self) -> Seq<Location> {
        self.found + self.pending
    }

    /// Whether `place` is an entry of `dir` whose name is among `taken`.
    pub open spec fn is_taken_entry(place: Location, dir: Location, taken: Seq<Seq<char>>) -> bool {
        exists|k: int| 0 <= k < taken.len() && place == dir.push(#[trigger] taken[k])
    }

    /// No two places of the crawl are one place, and none lies inside
    /// another. The directory that is being read lies outside all of them but
    /// for its own entries. Every name in them can be the name of a directory
    /// entry.
    pub open spec fn wf(self) -> bool {
        &&& scattered(self.places())
        &&& forall|i: int| 0 <= i < self.places().len() ==> valid_place(#[trigger] self.places()[i])
        &&& self.current matches Some(dir) ==> valid_place(dir) && forall|i: int|
            0 <= i < self.places().len() ==> unrelated(#[trigger] self.places()[i], dir)
                || Self::is_taken_entry(self.places()[i], dir, self.taken)
        &&& self.aborted ==> self.pending.len() == 0 && self.current is None
    }

    /// Whether an entry called `name` is taken up: a directory is being read,
    /// `name` can be the name of an entry, and the directory gave no entry of
    /// that name before.
    pub open spec fn accepts(self, name: Seq<char>) -> bool {
        self.current is Some && valid_name(name) && !self.taken.contains(name)
    }

    /// The place of the entry `name` of the directory that is being read.
    pub open spec fn entry(self, name: Seq<char>) -> Location {
        self.current.unwrap().push(name)
    }

    /// The crawl after a directory entry `name` that was probed with the
    /// answer `answer`. A working tree is a result. A bare repository is
    /// dropped. Any other directory is put down to be read. None of them is
    /// entered now.
    pub open spec fn after_entry(self, name: Seq<char>, answer: ProbeKind) -> CrawlState {
        if !self.accepts(name) {
            self
        } else {
            match answer {
                ProbeKind::WorkTree => CrawlState {
                    found: self.found.push(self.entry(name)),
                    taken: self.taken.push(name),
                    ..self
                },
                ProbeKind::Bare => self,
                ProbeKind::NotRepository => CrawlState {
                    pending: self.pending.push(self.entry(name)),
                    taken: self.taken.push(name),
                    ..self
                },
            }
        }
    }

    /// The crawl after the step to the next directory: the last of the
    /// pending ones, where there is one.
    pub open spec fn after_next(self) -> CrawlState {
        if self.pending.len() == 0 {
            CrawlState { current: None, taken: Seq::empty(), ..self }
        } else {
            CrawlState {
                pending: self.pending.drop_last(),
                current: Some(self.pending.last()),
                taken: Seq::empty(),
                ..self
            }
        }
    }

    /// Whether a failure to read the current directory ends the crawl: it
    /// does where that directory is the root.
    pub open spec fn failure_is_fatal(self) -> bool {
        self.current == Some(Seq::<Seq<char>>::empty())
    }

    /// The crawl after the current directory could not be read.
    pub open spec fn after_failure(self) -> CrawlState {
        if self.failure_is_fatal() {
            CrawlState {
                pending: Seq::empty(),
                current: None,
                taken: Seq::empty(),
                aborted: true,
                ..self
            }
        } else {
            CrawlState { current: None, taken: Seq::empty(), ..self }
        }
    }
}

/// A crawl in progress.
pub struct Crawler {
    root: String,
    found: Vec<RepositoryHandle>,
    pending: Vec<Vec<String>>,
    current: Option<Vec<String>>,
    current_path: String,
    taken: Vec<String>,
    aborted: bool,
}

impl View for Crawler {
    type V = CrawlState;

    closed spec fn view(&self) -> CrawlState {
        CrawlState {
            root: self.root@,
            found: places_of(self.found@),
            pending: self.pending.deep_view(),
            current: match self.current {
                Some(dir) => Some(dir.deep_view()),
                None => None,
            },
            taken: self.taken.deep_view(),
            aborted: self.aborted,
        }
    }
}

/// Copies the names of a place and adds one.
fn entry_location(dir: &Vec<String>, name: &str) -> (entry: Vec<String>)
    ensures
        entry.deep_view() == dir.deep_view().push(name@),
{
    let mut entry: Vec<String> = Vec::new();
    let mut i: usize = 0;
    while i < dir.len()
        invariant
            i <= dir.len(),
            entry.len() == i,
            forall|k: int| 0 <= k < i ==> entry[k]@ == dir[k]@,
        decreases dir.len() - i,
    {
        entry.push(dir[i].clone());
        i = i + 1;
    }
    entry.push(String::from_str(name));
    assert(entry.deep_view() =~= dir.deep_view().push(name@));
    entry
}

/// Tests whether `name` is among `names`.
fn holds_name(names: &Vec<String>, name: &str) -> (found: bool)
    ensures
        found == names.deep_view().contains(name@),
{
    let wanted = String::from_str(name);
    let mut i: usize = 0;
    while i < names.len()
        invariant
            i <= names.len(),
            wanted@ == name@,
            forall|j: int| 0 <= j < i ==> names.deep_view()[j] != name@,
        decreases names.len() - i,
    {
        if names[i] == wanted {
            assert(names.deep_view()[i as int] == name@);
            return true;
        }
        i = i + 1;
    }
    false
}

impl Crawler {
    /// The results so far, each with its repository.
    pub closed spec fn handles(&self) -> Seq<RepositoryHandle> {
        self.found@
    }

    /// The crawler's invariant: the places of the crawl are scattered, and
    /// each result's path is the path of its place.
    pub closed spec fn wf(&self) -> bool {
        &&& self@.wf()
        &&& forall|i: int|
            0 <= i < self.found.len() ==> (#[trigger] self.found[i]).path() == path_string(
                self.root@,
                self.found[i].place(),
            )
        &&& self.current matches Some(dir) ==> self.current_path@ == path_string(
            self.root@,
            dir.deep_view(),
        )
    }

    /// A crawl that is about to read `root`.
    pub fn new(root: String) -> (crawler: Crawler)
        ensures
            crawler.wf(),
            crawler.handles().len() == 0,
            crawler@ == (CrawlState {
                root: root@,
                found: Seq::empty(),
                pending: seq![Seq::empty()],
                current: None,
                taken: Seq::empty(),
                aborted: false,
            }),
    {
        let mut pending: Vec<Vec<String>> = Vec::new();
        pending.push(Vec::new());
        let crawler = Crawler {
            root,
            found: Vec::new(),
            pending,
            current: None,
            current_path: String::new(),
            taken: Vec::new(),
            aborted: false,
        };
        assert(crawler@.found =~= Seq::empty());
        assert(crawler@.pending[0] =~= Seq::empty());
        assert(crawler@.pending =~= seq![Seq::empty()]);
        assert(crawler@.taken =~= Seq::empty());
        crawler
    }

    /// Ends the reading of the current directory and goes on to the next:
    /// the one that was put down last. Returns its path, or `None` where no
    /// directory is left.
    pub fn next_directory(&mut self) -> (path: Option<String>)
        requires
            old(self).wf(),
        ensures
            final(self).wf(),
            final(self)@ == old(self)@.after_next(),
            final(self).handles() == old(self).handles(),
            match path {
                Some(path) => old(self)@.pending.len() > 0 && path@ == path_string(
                    old(self)@.root,
                    old(self)@.pending.last(),
                ),
                None => old(self)@.pending.len() == 0,
            },
    {
        let ghost before = self@;
        self.current = None;
        self.taken = Vec::new();
        assert(self.taken.deep_view() =~= Seq::empty());
        match self.pending.pop() {
            Some(dir) => {
                let path = place_path(self.root.as_str(), &dir);
                self.current_path = path.clone();
                assert(self.pending.deep_view() =~= before.pending.drop_last());
                assert(dir.deep_view() == before.pending.last());
                self.current = Some(dir);
                assert(self@ == before.after_next());
                proof {
                    lemma_next_keeps_wf(before);
                }
                Some(path)
            },
            None => {
                assert(self.pending.deep_view() =~= before.pending);
                assert(self@ == before.after_next());
                proof {
                    lemma_next_keeps_wf(before);
                }
                None
            },
        }
    }

    /// Whether an entry called `name` is taken up.
    fn takes(&self, name: &str) -> (accepted: bool)
        ensures
            accepted == self@.accepts(name@),
    {
        match &self.current {
            Some(_) => is_entry_name(name) && !holds_name(&self.taken, name),
            None => false,
        }
    }

    /// Takes the entry `name` of the current directory, a directory that was
    /// probed with the answer `probe`. Where the entry is not taken up,
    /// nothing changes.
    pub fn record_entry(&mut self, name: &str, probe: Probe)
        requires
            old(self).wf(),
        ensures
            final(self).wf(),
            final(self)@ == old(self)@.after_entry(name@, probe.kind()),
            match probe {
                Probe::WorkTree(tree) if old(self)@.accepts(name@) => {
                    &&& final(self).handles().len() == old(self).handles().len() + 1
                    &&& final(self).handles().drop_last() == old(self).handles()
                    &&& final(self).handles().last().opened() == tree.opened()
                    &&& final(self).handles().last().place() == old(self)@.entry(name@)
                    &&& final(self).handles().last().path() == path_string(
                        old(self)@.root,
                        old(self)@.entry(name@),
                    )
                },
                _ => final(self).handles() == old(self).handles(),
            },
    {
        let ghost before = self@;
        let ghost entry = before.entry(name@);
        if !self.takes(name) {
            return ;
        }
        let location = match &self.current {
            Some(dir) => entry_location(dir, name),
            None => Vec::new(),
        };
        assert(location.deep_view() == entry);
        proof {
            lemma_entry_is_new(before, name@);
        }
        match probe {
            Probe::WorkTree(tree) => {
                let root_path = join_path(self.current_path.as_str(), name);
                assert(entry.drop_last() == before.current.unwrap());
                assert(root_path@ == path_string(before.root, entry));
                self.taken.push(String::from_str(name));
                assert(self.taken.deep_view() =~= before.taken.push(name@));
                self.found.push(RepositoryHandle { root_path, location, repo: tree.repo });
                assert(places_of(self.found@) =~= before.found.push(entry));
                assert(self.found@.drop_last() =~= old(self).found@);
                assert(self@ == before.after_entry(name@, ProbeKind::WorkTree));
                proof {
                    lemma_entry_keeps_wf(before, name@, ProbeKind::WorkTree);
                }
            },
            Probe::Bare => {},
            Probe::NotRepository => {
                self.taken.push(String::from_str(name));
                assert(self.taken.deep_view() =~= before.taken.push(name@));
                self.pending.push(location);
                assert(self.pending.deep_view() =~= before.pending.push(entry));
                assert(self@ == before.after_entry(name@, ProbeKind::NotRepository));
                proof {
                    lemma_entry_keeps_wf(before, name@, ProbeKind::NotRepository);
                }
            },
        }
    }

    /// Takes the entry `name` of the current directory. A directory that is
    /// taken up is opened as a repository, and the answer decides what becomes
    /// of it; anything else is passed over and nothing is opened.
    ///
    /// Returns the answer of the probe, or `None` where none was made. The
    /// crawl goes on as that answer says: a working tree is one more result,
    /// at the path of the entry; a directory that is no repository is put down
    /// to be read; a bare repository changes nothing.
    pub fn visit_entry(&mut self, name: &str, kind: EntryKind) -> (answer: Option<ProbeKind>)
        requires
            old(self).wf(),
        ensures
            final(self).wf(),
            answer is Some <==> kind == EntryKind::Directory && old(self)@.accepts(name@),
            final(self)@ == match answer {
                Some(found) => old(self)@.after_entry(name@, found),
                None => old(self)@,
            },
            match answer {
                Some(ProbeKind::WorkTree) => {
                    &&& final(self).handles().len() == old(self).handles().len() + 1
                    &&& final(self).handles().drop_last() == old(self).handles()
                    &&& final(self).handles().last().place() == old(self)@.entry(name@)
                    &&& final(self).handles().last().path() == path_string(
                        old(self)@.root,
                        old(self)@.entry(name@),
                    )
                },
                _ => final(self).handles() == old(self).handles(),
            },
    {
        match kind {
            EntryKind::Directory => {
                if self.takes(name) {
                    let path = join_path(self.current_path.as_str(), name);
                    let probe = probe_directory(path.as_str());
                    let answer = probe.answer();
                    self.record_entry(name, probe);
                    Some(answer)
                } else {
                    None
                }
            },
            _ => None,
        }
    }

    /// Tells the crawler that the current directory could not be read.
    /// Returns whether this ends the crawl: it does where that directory is
    /// the root. Any other directory is left behind and the crawl goes on.
    pub fn read_failed(&mut self) -> (fatal: bool)
        requires
            old(self).wf(),
        ensures
            final(self).wf(),
            fatal == old(self)@.failure_is_fatal(),
            final(self)@ == old(self)@.after_failure(),
            final(self).handles() == old(self).handles(),
    {
        let ghost before = self@;
        let fatal = match &self.current {
            Some(dir) => dir.len() == 0,
            None => false,
        };
        proof {
            if before.current is Some {
                assert(before.current.unwrap().len() == 0 <==> before.current.unwrap()
                    =~= Seq::<Seq<char>>::empty());
            }
        }
        self.current = None;
        self.taken = Vec::new();
        assert(self.taken.deep_view() =~= Seq::empty());
        if fatal {
            self.pending = Vec::new();
            self.aborted = true;
            assert(self.pending.deep_view() =~= Seq::empty());
        }
        assert(self@ == before.after_failure());
        proof {
            lemma_failure_keeps_wf(before);
        }
        fatal
    }

    /// Whether the root could not be read.
    pub fn is_aborted(&self) -> (aborted: bool)
        ensures
            aborted == self@.aborted,
    {
        self.aborted
    }

    /// The results so far.
    pub fn found(&self) -> (found: &Vec<RepositoryHandle>)
        ensures
            found@ == self.handles(),
    {
        &self.found
    }

    /// Ends the crawl and hands out its results.
    pub fn into_found(self) -> (found: Vec<RepositoryHandle>)
        ensures
            found@ == self.handles(),
    {
        self.found
    }

    /// No result lies inside another, no place is a result twice, and each
    /// result's path is the path of its place below the root.
    pub proof fn lemma_results_scattered(&self)
        requires
            self.wf(),
        ensures
            self@.wf(),
            self@.found == places_of(self.handles()),
            scattered(places_of(self.handles())),
            forall|i: int|
                0 <= i < self.handles().len() ==> (#[trigger] self.handles()[i]).path()
                    == path_string(self@.root, self.handles()[i].place()),
    {
        lemma_found_scattered(self@);
    }

    /// Two results have different paths, and the path of neither leads
    /// inside the working tree of the other.
    pub proof fn lemma_results_apart(&self, i: int, j: int)
        requires
            self.wf(),
            0 <= i < self.handles().len(),
            0 <= j < self.handles().len(),
            i != j,
        ensures
            self.handles()[i].path() != self.handles()[j].path(),
            !path_inside(self.handles()[i].path(), self.handles()[j].path()),
    {
        if i < j {
            lemma_found_paths_apart(self@, i, j);
        } else {
            lemma_found_paths_apart(self@, j, i);
        }
    }
}

/// A crawl starts well formed.
pub proof fn lemma_start_wf(root: Seq<char>)
    ensures
        (CrawlState {
            root,
            found: Seq::empty(),
            pending: seq![Seq::empty()],
            current: None,
            taken: Seq::empty(),
            aborted: false,
        }).wf(),
{
}

/// No result lies inside another, and no place is a result twice.
pub proof fn lemma_found_scattered(state: CrawlState)
    requires
        state.wf(),
    ensures
        scattered(state.found),
{
    assert forall|i: int, j: int| 0 <= i < j < state.found.len() implies unrelated(
        #[trigger] state.found[i],
        #[trigger] state.found[j],
    ) by {
        assert(state.places()[i] == state.found[i]);
        assert(state.places()[j] == state.found[j]);
    }
}

/// The paths of two results are different, and neither leads inside the
/// working tree at the other.
pub proof fn lemma_found_paths_apart(state: CrawlState, i: int, j: int)
    requires
        state.wf(),
        0 <= i < j < state.found.len(),
    ensures
        path_string(state.root, state.found[i]) != path_string(state.root, state.found[j]),
        !path_inside(
            path_string(state.root, state.found[i]),
            path_string(state.root, state.found[j]),
        ),
        !path_inside(
            path_string(state.root, state.found[j]),
            path_string(state.root, state.found[i]),
        ),
{
    assert(state.places()[i] == state.found[i]);
    assert(state.places()[j] == state.found[j]);
    lemma_unrelated_paths(state.root, state.found[i], state.found[j]);
}

/// Only a working tree becomes a result. A bare repository changes nothing:
/// it is no result, and it is not put down to be read, so that nothing
/// inside it is ever seen.
pub proof fn lemma_only_work_trees_found(state: CrawlState, name: Seq<char>, answer: ProbeKind)
    ensures
        state.after_entry(name, ProbeKind::Bare) == state,
        answer != ProbeKind::WorkTree ==> state.after_entry(name, answer).found == state.found,
        answer != ProbeKind::NotRepository ==> state.after_entry(name, answer).pending
            == state.pending,
{
}

/// Every step of a crawl keeps it well formed, whatever the entries are and
/// whatever the probes answer.
pub proof fn lemma_steps_keep_wf(state: CrawlState, name: Seq<char>, answer: ProbeKind)
    requires
        state.wf(),
    ensures
        state.after_next().wf(),
        state.after_entry(name, answer).wf(),
        state.after_failure().wf(),
{
    lemma_next_keeps_wf(state);
    lemma_entry_keeps_wf(state, name, answer);
    lemma_failure_keeps_wf(state);
}

/// The step to the next directory keeps the crawl well formed.
proof fn lemma_next_keeps_wf(state: CrawlState)
    requires
        state.wf(),
    ensures
        state.after_next().wf(),
{
    let after = state.after_next();
    if state.pending.len() > 0 {
        assert forall|i: int, j: int| 0 <= i < j < after.places().len() implies unrelated(
            #[trigger] after.places()[i],
            #[trigger] after.places()[j],
        ) by {
            assert(after.places()[i] == state.places()[i]);
            assert(after.places()[j] == state.places()[j]);
        }
        assert forall|i: int| 0 <= i < after.places().len() implies unrelated(
            #[trigger] after.places()[i],
            state.pending.last(),
        ) by {
            assert(after.places()[i] == state.places()[i]);
            assert(state.places()[state.places().len() - 1] == state.pending.last());
        }
        assert(state.places()[state.places().len() - 1] == state.pending.last());
    }
    assert forall|i: int| 0 <= i < after.places().len() implies valid_place(
        #[trigger] after.places()[i],
    ) by {
        assert(after.places()[i] == state.places()[i]);
    }
}

/// A directory that could not be read keeps the crawl well formed.
proof fn lemma_failure_keeps_wf(state: CrawlState)
    requires
        state.wf(),
    ensures
        state.after_failure().wf(),
{
    let after = state.after_failure();
    assert forall|i: int, j: int| 0 <= i < j < after.places().len() implies unrelated(
        #[trigger] after.places()[i],
        #[trigger] after.places()[j],
    ) by {
        assert(after.places()[i] == state.places()[i]);
        assert(after.places()[j] == state.places()[j]);
    }
    assert forall|i: int| 0 <= i < after.places().len() implies valid_place(
        #[trigger] after.places()[i],
    ) by {
        assert(after.places()[i] == state.places()[i]);
    }
}

/// An entry keeps the crawl well formed.
proof fn lemma_entry_keeps_wf(state: CrawlState, name: Seq<char>, answer: ProbeKind)
    requires
        state.wf(),
    ensures
        state.after_entry(name, answer).wf(),
{
    if state.accepts(name) {
        match answer {
            ProbeKind::WorkTree => lemma_found_keeps_wf(state, name),
            ProbeKind::Bare => {},
            ProbeKind::NotRepository => lemma_pending_keeps_wf(state, name),
        }
    }
}

/// An entry that is taken up is unrelated to every place of the crawl.
proof fn lemma_entry_is_new(state: CrawlState, name: Seq<char>)
    requires
        state.wf(),
        state.accepts(name),
    ensures
        forall|i: int|
            0 <= i < state.places().len() ==> unrelated(
                #[trigger] state.places()[i],
                state.entry(name),
            ),
{
    let dir = state.current.unwrap();
    assert forall|i: int| 0 <= i < state.places().len() implies unrelated(
        #[trigger] state.places()[i],
        state.entry(name),
    ) by {
        let place = state.places()[i];
        if unrelated(place, dir) {
            lemma_unrelated_to_entries(place, dir, name);
        } else {
            let k = choose|k: int|
                0 <= k < state.taken.len() && place == dir.push(#[trigger] state.taken[k]);
            lemma_entries_unrelated(dir, state.taken[k], name);
        }
    }
}

/// A new result keeps the crawl well formed.
proof fn lemma_found_keeps_wf(state: CrawlState, name: Seq<char>)
    requires
        state.wf(),
        state.accepts(name),
    ensures
        state.after_entry(name, ProbeKind::WorkTree).wf(),
{
    let after = state.after_entry(name, ProbeKind::WorkTree);
    let dir = state.current.unwrap();
    let entry = state.entry(name);
    let n = state.found.len() as int;
    lemma_entry_is_new(state, name);
    assert forall|i: int| 0 <= i < after.places().len() implies (#[trigger] after.places()[i]
        == if i < n {
        state.places()[i]
    } else if i == n {
        entry
    } else {
        state.places()[i - 1]
    }) by {}
    assert forall|i: int, j: int| 0 <= i < j < after.places().len() implies unrelated(
        #[trigger] after.places()[i],
        #[trigger] after.places()[j],
    ) by {
        let a = if i < n { i } else { i - 1 };
        let b = if j < n { j } else { j - 1 };
        if i != n && j != n {
            assert(unrelated(state.places()[a], state.places()[b]));
        }
    }
    assert(after.places() =~= state.places().insert(n, entry));
    assert forall|i: int| 0 <= i < after.places().len() implies unrelated(
        #[trigger] after.places()[i],
        dir,
    ) || CrawlState::is_taken_entry(after.places()[i], dir, after.taken) by {
        lemma_still_taken(state, after, name, i, n);
    }
}

/// A new directory to read keeps the crawl well formed.
proof fn lemma_pending_keeps_wf(state: CrawlState, name: Seq<char>)
    requires
        state.wf(),
        state.accepts(name),
    ensures
        state.after_entry(name, ProbeKind::NotRepository).wf(),
{
    let after = state.after_entry(name, ProbeKind::NotRepository);
    let dir = state.current.unwrap();
    let entry = state.entry(name);
    let n = state.places().len() as int;
    lemma_entry_is_new(state, name);
    assert forall|i: int| 0 <= i < after.places().len() implies (#[trigger] after.places()[i]
        == if i < n {
        state.places()[i]
    } else {
        entry
    }) by {}
    assert forall|i: int, j: int| 0 <= i < j < after.places().len() implies unrelated(
        #[trigger] after.places()[i],
        #[trigger] after.places()[j],
    ) by {
        if j < n {
            assert(unrelated(state.places()[i], state.places()[j]));
        }
    }
    assert(after.places() =~= state.places().insert(n, entry));
    assert forall|i: int| 0 <= i < after.places().len() implies unrelated(
        #[trigger] after.places()[i],
        dir,
    ) || CrawlState::is_taken_entry(after.places()[i], dir, after.taken) by {
        lemma_still_taken(state, after, name, i, n);
    }
}

/// After the entry `name` was put at index `n` of the places, each place is
/// still outside the current directory or one of its taken entries.
proof fn lemma_still_taken(state: CrawlState, after: CrawlState, name: Seq<char>, i: int, n: int)
    requires
        state.wf(),
        state.accepts(name),
        after.current == state.current,
        after.taken == state.taken.push(name),
        0 <= n <= state.places().len(),
        after.places() == state.places().insert(n, state.entry(name)),
        0 <= i < after.places().len(),
    ensures
        unrelated(after.places()[i], state.current.unwrap()) || CrawlState::is_taken_entry(
            after.places()[i],
            state.current.unwrap(),
            after.taken,
        ),
{
    let dir = state.current.unwrap();
    let place = after.places()[i];
    if i == n {
        assert(after.taken[state.taken.len() as int] == name);
    } else {
        let earlier = if i < n { i } else { i - 1 };
        assert(place == state.places()[earlier]);
        if !unrelated(place, dir) {
            let k = choose|k: int|
                0 <= k < state.taken.len() && place == dir.push(#[trigger] state.taken[k]);
            assert(after.taken[k] == state.taken[k]);
        }
    }
}

} // verus!
