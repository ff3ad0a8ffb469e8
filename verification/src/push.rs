//! Pushing outstanding branches: which remote, which credential, what to show
//! while the transfer runs, and what the result of the transfer means.

use crate::engine::remote_names;
use vstd::prelude::*;
use vstd::string::*;

verus! {

/// How a push to one repository ended.
#[derive(Clone, Copy, Debug, PartialEq, Eq, Structural)]
pub enum PushOutcome {
    /// The repository has no branch ahead of its upstream: nothing was attempted.
    Skipped,
    /// The transfer ended without an error, whether or not a reference moved.
    Succeeded,
    /// The repository has no remote at all.
    NoRemoteFound,
    /// The remote refused the key.
    AuthenticationFailed,
    /// The transfer failed for any other reason.
    NetworkOrProtocolError,
    /// The remote holds commits that the local branch lacks.
    RejectedNonFastForward,
}

impl PushOutcome {
    /// Whether the repository was to be pushed and was not.
    pub open spec fn is_failure(self) -> bool {
        self != PushOutcome::Skipped && self != PushOutcome::Succeeded
    }

    /// Whether the repository was to be pushed and was not.
    pub fn failed(self) -> (failed: bool)
        ensures
            failed == self.is_failure(),
    {
        match self {
            PushOutcome::Skipped => false,
            PushOutcome::Succeeded => false,
            _ => true,
        }
    }
}

/// The engine's error code for a refused credential.
pub const CODE_AUTH: i32 = -16;

/// The engine's error code for a reference that cannot be fast-forwarded.
pub const CODE_NON_FAST_FORWARD: i32 = -11;

/// What a failed transfer means, by the engine's error code.
pub open spec fn outcome_of_code(code: i32) -> PushOutcome {
    if code == CODE_AUTH {
        PushOutcome::AuthenticationFailed
    } else if code == CODE_NON_FAST_FORWARD {
        PushOutcome::RejectedNonFastForward
    } else {
        PushOutcome::NetworkOrProtocolError
    }
}

/// What the end of a transfer means: `Ok` is success, `Err` carries the
/// engine's error code.
pub open spec fn outcome_of_result(result: Result<(), i32>) -> PushOutcome {
    match result {
        Ok(_) => PushOutcome::Succeeded,
        Err(code) => outcome_of_code(code),
    }
}

/// Classifies the end of a transfer.
pub fn classify_push_result(result: Result<(), i32>) -> (outcome: PushOutcome)
    ensures
        outcome == outcome_of_result(result),
{
    match result {
        Ok(_) => PushOutcome::Succeeded,
        Err(code) => {
            if code == CODE_AUTH {
                PushOutcome::AuthenticationFailed
            } else if code == CODE_NON_FAST_FORWARD {
                PushOutcome::RejectedNonFastForward
            } else {
                PushOutcome::NetworkOrProtocolError
            }
        },
    }
}

/// The remote that a push goes to.
#[derive(Debug)]
pub struct RemoteChoice {
    /// The remote's name.
    pub name: String,
    /// Whether `origin` was missing, so that the first remote stands in.
    pub fallback: bool,
}

/// The name of the preferred remote.
pub open spec fn origin() -> Seq<char> {
    "origin"@
}

/// The remote to push to among `names`: `origin` where it is present, else
/// the first name, else none.
pub open spec fn resolve_remote(names: Seq<Seq<char>>) -> Option<(Seq<char>, bool)> {
    if names.contains(origin()) {
        Some((origin(), false))
    } else if names.len() > 0 {
        Some((names[0], true))
    } else {
        None
    }
}

/// Picks the remote to push to.
pub fn choose_remote(names: &Vec<String>) -> (choice: Option<RemoteChoice>)
    ensures
        match choice {
            Some(c) => resolve_remote(names.deep_view()) == Some((c.name@, c.fallback)),
            None => resolve_remote(names.deep_view()) is None,
        },
{
    let preferred = String::from_str("origin");
    let mut i: usize = 0;
    while i < names.len()
        invariant
            i <= names.len(),
            preferred@ == origin(),
            forall|j: int| 0 <= j < i ==> names.deep_view()[j] != origin(),
        decreases names.len() - i,
    {
        if names[i] == preferred {
            assert(names.deep_view()[i as int] == origin());
            return Some(RemoteChoice { name: preferred, fallback: false });
        }
        i = i + 1;
    }
    if names.len() > 0 {
        Some(RemoteChoice { name: names[0].clone(), fallback: true })
    } else {
        None
    }
}

/// Where the private key lies, and nothing else: the one credential that a
/// push may use.
#[derive(Debug)]
pub struct PushConfig {
    /// The path of the private key.
    pub key_path: String,
}

/// The key's place below a home directory.
pub open spec fn key_suffix() -> Seq<char> {
    "/.ssh/id_rsa"@
}

impl PushConfig {
    /// The configuration of the user whose home directory is `home`.
    pub fn for_home(home: &str) -> (config: PushConfig)
        ensures
            config.key_path@ == home@ + key_suffix(),
    {
        PushConfig { key_path: String::from_str(home).concat("/.ssh/id_rsa") }
    }

    /// The credential to answer the remote with. The remote's address must
    /// name the user: without a name there is nothing to offer.
    pub fn credential_for(&self, username_from_url: Option<String>) -> (credential: Option<
        SshCredential,
    >)
        ensures
            match username_from_url {
                Some(user) => credential == Some(
                    (SshCredential { username: user, private_key: self.key_path }),
                ),
                None => credential is None,
            },
    {
        match username_from_url {
            Some(user) => Some(
                SshCredential { username: user, private_key: self.key_path.clone() },
            ),
            None => None,
        }
    }
}

/// A key-based credential without a passphrase.
#[derive(Debug)]
pub struct SshCredential {
    /// The user to log in as.
    pub username: String,
    /// The path of the private key.
    pub private_key: String,
}

/// Object-transfer counters, as the transport reports them.
#[derive(Clone, Copy, Debug)]
pub struct TransferStats {
    /// Objects that the transfer will move in all.
    pub total_objects: usize,
    /// Objects hashed so far.
    pub indexed_objects: usize,
    /// Objects received so far.
    pub received_objects: usize,
    /// Deltas that the transfer holds in all.
    pub total_deltas: usize,
    /// Deltas resolved so far.
    pub indexed_deltas: usize,
    /// Bytes received so far.
    pub received_bytes: usize,
}

/// What the transport reports while a transfer runs.
#[derive(Debug)]
pub enum PushEvent {
    /// Text that the remote sent beside the data.
    Sideband(String),
    /// New transfer counters.
    Transfer(TransferStats),
    /// A reference went from the commit `old` to the commit `new`.
    RefUpdate { name: String, old: Vec<u8>, new: Vec<u8> },
}

/// What to show for one event.
#[derive(Debug)]
pub enum ProgressLine {
    /// The remote's own words.
    RemoteMessage(String),
    /// Every object has arrived; deltas are being resolved.
    ResolvingDeltas { indexed: usize, total: usize },
    /// Objects are still arriving.
    ReceivingObjects { received: usize, total: usize, indexed: usize, bytes: usize },
    /// A reference that did not exist before.
    NewReference { name: String, id: Vec<u8> },
    /// A reference that moved.
    MovedReference { name: String, from: Vec<u8>, to: Vec<u8> },
    /// Nothing to show.
    Quiet,
}

/// Whether `id` is the all-zero identifier, which stands for "no commit".
pub open spec fn is_zero_id(id: Seq<u8>) -> bool {
    forall|i: int| 0 <= i < id.len() ==> id[i] == 0
}

/// Tests whether `id` is the all-zero identifier.
pub fn id_is_zero(id: &Vec<u8>) -> (zero: bool)
    ensures
        zero == is_zero_id(id@),
{
    let mut i: usize = 0;
    while i < id.len()
        invariant
            i <= id.len(),
            forall|j: int| 0 <= j < i ==> id@[j] == 0,
        decreases id.len() - i,
    {
        if id[i] != 0 {
            return false;
        }
        i = i + 1;
    }
    true
}

/// What to show for transfer counters: once every object is in, the deltas;
/// before that, the objects, as soon as their number is known.
pub open spec fn transfer_line(stats: TransferStats) -> ProgressLine {
    if stats.received_objects == stats.total_objects {
        ProgressLine::ResolvingDeltas { indexed: stats.indexed_deltas, total: stats.total_deltas }
    } else if stats.total_objects > 0 {
        ProgressLine::ReceivingObjects {
            received: stats.received_objects,
            total: stats.total_objects,
            indexed: stats.indexed_objects,
            bytes: stats.received_bytes,
        }
    } else {
        ProgressLine::Quiet
    }
}

/// What to show for `event`.
pub open spec fn line_of(event: PushEvent) -> ProgressLine {
    match event {
        PushEvent::Sideband(text) => ProgressLine::RemoteMessage(text),
        PushEvent::Transfer(stats) => transfer_line(stats),
        PushEvent::RefUpdate { name, old, new } => if is_zero_id(old@) {
            ProgressLine::NewReference { name, id: new }
        } else {
            ProgressLine::MovedReference { name, from: old, to: new }
        },
    }
}

/// Turns one event into the line to show for it. Each event is answered on
/// its own, so lines come out in the order in which events come in.
pub fn progress_line(event: PushEvent) -> (line: ProgressLine)
    ensures
        line == line_of(event),
{
    match event {
        PushEvent::Sideband(text) => ProgressLine::RemoteMessage(text),
        PushEvent::Transfer(stats) => {
            if stats.received_objects == stats.total_objects {
                ProgressLine::ResolvingDeltas {
                    indexed: stats.indexed_deltas,
                    total: stats.total_deltas,
                }
            } else if stats.total_objects > 0 {
                ProgressLine::ReceivingObjects {
                    received: stats.received_objects,
                    total: stats.total_objects,
                    indexed: stats.indexed_objects,
                    bytes: stats.received_bytes,
                }
            } else {
                ProgressLine::Quiet
            }
        },
        PushEvent::RefUpdate { name, old, new } => {
            if id_is_zero(&old) {
                ProgressLine::NewReference { name, id: new }
            } else {
                ProgressLine::MovedReference { name, from: old, to: new }
            }
        },
    }
}

/// What a push starts with.
pub enum PushPlan {
    /// No branch is ahead: the push is over before it began.
    Skip,
    /// There is no remote: the push is over before it began.
    NoRemote,
    /// Connect to the remote `name`; `fallback` says that it is not `origin`.
    Connect { name: Seq<char>, fallback: bool },
}

/// The plan for a repository with `ahead` branches ahead of their upstream
/// and the remotes `names`.
pub open spec fn plan_push(ahead: nat, names: Seq<Seq<char>>) -> PushPlan {
    if ahead == 0 {
        PushPlan::Skip
    } else {
        match resolve_remote(names) {
            Some((name, fallback)) => PushPlan::Connect { name, fallback },
            None => PushPlan::NoRemote,
        }
    }
}

/// The names among `listed` that could be read, in their order. A remote
/// whose name cannot be read cannot be named to the engine, and is left out.
pub open spec fn readable(listed: Seq<Option<Seq<char>>>) -> Seq<Seq<char>>
    decreases listed.len(),
{
    if listed.len() == 0 {
        Seq::empty()
    } else {
        let earlier = readable(listed.drop_last());
        match listed.last() {
            Some(name) => earlier.push(name),
            None => earlier,
        }
    }
}

/// The remotes to choose from after a listing: the names that could be read,
/// and none where the listing failed.
pub open spec fn names_of(listing: Option<Seq<Option<Seq<char>>>>) -> Seq<Seq<char>> {
    match listing {
        Some(listed) => readable(listed),
        None => Seq::empty(),
    }
}

/// Picks the names that could be read.
pub fn readable_names(listed: &Vec<Option<String>>) -> (names: Vec<String>)
    ensures
        names.deep_view() == readable(listed.deep_view()),
{
    let mut names: Vec<String> = Vec::new();
    let mut i: usize = 0;
    assert(names.deep_view() =~= readable(listed.deep_view().take(0)));
    while i < listed.len()
        invariant
            i <= listed.len(),
            names.deep_view() == readable(listed.deep_view().take(i as int)),
        decreases listed.len() - i,
    {
        let ghost before = names.deep_view();
        assert(listed.deep_view().take(i + 1).drop_last() == listed.deep_view().take(i as int));
        assert(listed.deep_view().take(i + 1).last() == listed[i as int].deep_view());
        match &listed[i] {
            Some(name) => {
                names.push(name.clone());
                assert(names.deep_view() =~= before.push(name@));
            },
            None => {},
        }
        i = i + 1;
    }
    assert(listed.deep_view().take(listed.len() as int) == listed.deep_view());
    names
}

/// The branch references to push: one for each branch that is ahead.
pub fn push_refspecs(ahead: &Vec<String>) -> (specs: Vec<String>)
    ensures
        specs.len() == ahead.len(),
        forall|i: int| 0 <= i < ahead.len() ==> specs[i]@ == "refs/heads/"@ + ahead[i]@,
{
    let mut specs: Vec<String> = Vec::new();
    let mut i: usize = 0;
    while i < ahead.len()
        invariant
            i <= ahead.len(),
            specs.len() == i,
            forall|k: int| 0 <= k < i ==> specs[k]@ == "refs/heads/"@ + ahead[k]@,
        decreases ahead.len() - i,
    {
        specs.push(String::from_str("refs/heads/").concat(ahead[i].as_str()));
        i = i + 1;
    }
    specs
}

/// One push, from its plan to its outcome.
///
/// A session is either in flight, waiting for the transfer to end, or over.
/// Once it is over its outcome no longer changes.
#[derive(Debug)]
pub struct PushSession {
    outcome: Option<PushOutcome>,
}

impl View for PushSession {
    type V = Option<PushOutcome>;

    /// The outcome, once there is one.
    closed spec fn view(&self) -> Option<PushOutcome> {
        self.outcome
    }
}

/// Whether a session and the remote to connect to are what `plan` asks for:
/// a session that is over and no remote where the plan ends before the
/// network, else a session in flight and the remote of the plan.
pub open spec fn follows_plan(
    session: PushSession,
    remote: Option<RemoteChoice>,
    plan: PushPlan,
) -> bool {
    match plan {
        PushPlan::Skip => session@ == Some(PushOutcome::Skipped) && remote is None,
        PushPlan::NoRemote => session@ == Some(PushOutcome::NoRemoteFound) && remote is None,
        PushPlan::Connect { name, fallback } => {
            &&& session@ is None
            &&& remote matches Some(chosen)
            &&& chosen.name@ == name
            &&& chosen.fallback == fallback
        },
    }
}

/// How a push starts.
#[derive(Debug)]
pub struct PushStart {
    /// The push.
    pub session: PushSession,
    /// The remote to connect to; none where the session is over.
    pub remote: Option<RemoteChoice>,
    /// Whether the remotes were to be listed and the listing failed: a
    /// warning is due, for "no remote found" then means "none could be
    /// looked for".
    pub remotes_unreadable: bool,
}

/// Starts a push for a repository with `ahead` branches ahead of their
/// upstream, of whose remotes the engine gave `listing`: `None` where it
/// could not list them. A listing that failed leaves no remote to choose.
pub fn start_push(ahead: usize, listing: &Option<Vec<Option<String>>>) -> (start: PushStart)
    ensures
        follows_plan(
            start.session,
            start.remote,
            plan_push(ahead as nat, names_of(listing.deep_view())),
        ),
        start.remotes_unreadable == (ahead > 0 && listing is None),
{
    let names = match listing {
        Some(listed) => readable_names(listed),
        None => Vec::new(),
    };
    assert(names.deep_view() =~= names_of(listing.deep_view()));
    let (session, remote) = PushSession::begin(ahead, &names);
    PushStart { session, remote, remotes_unreadable: ahead > 0 && listing.is_none() }
}

impl PushSession {
    /// Starts a push for a repository with `ahead` branches ahead of their
    /// upstream and the remotes `names`. Returns the session and the remote to
    /// connect to. Where no remote is returned the session is already over and
    /// the network is not to be touched.
    pub fn begin(ahead: usize, names: &Vec<String>) -> (started: (
        PushSession,
        Option<RemoteChoice>,
    ))
        ensures
            follows_plan(started.0, started.1, plan_push(ahead as nat, names.deep_view())),
    {
        if ahead == 0 {
            return (PushSession { outcome: Some(PushOutcome::Skipped) }, None);
        }
        match choose_remote(names) {
            Some(remote) => (PushSession { outcome: None }, Some(remote)),
            None => (PushSession { outcome: Some(PushOutcome::NoRemoteFound) }, None),
        }
    }

    /// The outcome, once there is one.
    pub fn outcome(&self) -> (outcome: Option<PushOutcome>)
        ensures
            outcome == self@,
    {
        self.outcome
    }

    /// Ends the transfer: `Ok` where it went through, `Err` with the engine's
    /// error code where it did not. A session that was over before keeps its
    /// outcome.
    pub fn finish(&mut self, result: Result<(), i32>) -> (outcome: PushOutcome)
        ensures
            final(self)@ == Some(outcome),
            outcome == match old(self)@ {
                Some(earlier) => earlier,
                None => outcome_of_result(result),
            },
    {
        match self.outcome {
            Some(earlier) => earlier,
            None => {
                let outcome = classify_push_result(result);
                self.outcome = Some(outcome);
                outcome
            },
        }
    }
}

/// Starts a push for `repo`, which has `ahead` branches ahead of their
/// upstream: lists its remotes and picks one. With no branch ahead the
/// remotes are not listed. Where no remote is returned the session is over
/// and the network is not to be touched. Where the engine cannot list the
/// remotes the outcome is `NoRemoteFound`, and the start says that the
/// listing failed.
pub fn find_remote(repo: &git2::Repository, ahead: usize) -> (start: PushStart)
    ensures
        start.remote is None <==> start.session@ is Some,
        ahead == 0 ==> start.session@ == Some(PushOutcome::Skipped) && !start.remotes_unreadable,
        ahead > 0 && start.remote is None ==> start.session@ == Some(PushOutcome::NoRemoteFound),
        start.remote matches Some(remote) ==> (remote.fallback <==> remote.name@ != origin()),
        start.remotes_unreadable ==> start.session@ == Some(PushOutcome::NoRemoteFound),
{
    let listing = if ahead == 0 {
        Some(Vec::new())
    } else {
        remote_names(repo)
    };
    start_push(ahead, &listing)
}

/// A failed transfer is always one of the three failures, and the error code
/// alone says which: the refused credential, the rejected reference and the
/// failure of the network or the protocol never stand for one another.
pub proof fn lemma_failures_are_told_apart(code: i32)
    ensures
        outcome_of_code(code) == PushOutcome::AuthenticationFailed <==> code == CODE_AUTH,
        outcome_of_code(code) == PushOutcome::RejectedNonFastForward <==> code
            == CODE_NON_FAST_FORWARD,
        outcome_of_code(code) == PushOutcome::NetworkOrProtocolError <==> code != CODE_AUTH && code
            != CODE_NON_FAST_FORWARD,
        outcome_of_result(Err(code)) != PushOutcome::Succeeded,
        outcome_of_result(Err(code)) != PushOutcome::Skipped,
        outcome_of_result(Err(code)) != PushOutcome::NoRemoteFound,
{
}

/// A repository without remotes is answered with `NoRemoteFound` before any
/// connection: its plan names no remote to connect to.
pub proof fn lemma_no_remote_no_connection(ahead: nat)
    requires
        ahead > 0,
    ensures
        plan_push(ahead, Seq::<Seq<char>>::empty()) == PushPlan::NoRemote,
{
}

} // verus!
