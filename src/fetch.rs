//! Decisions of the fetch pipeline: per record, whether the store already
//! holds the archive, whether a search directory does, or whether to
//! download it; and how work is spread over the workers.
use vstd::prelude::*;
use vstd::string::*;
use crate::digest::{checksum_accepts, checksum_matches};
use crate::record::CrateData;

verus! {

/// How the fetch of one record ended.
#[derive(Debug, Clone, Copy, PartialEq, Eq, Structural)]
pub enum FetchOutcome {
    /// The store already held a correct archive.
    LocalHit,
    /// A correct archive was copied from a search directory.
    SearchPathHit,
    /// A correct archive was downloaded.
    Downloaded,
    /// Nothing correct could be put in place; the target was removed.
    Failed,
}

/// What the fetch of one record waits for.
#[derive(Debug, Clone, Copy, PartialEq, Eq, Structural)]
pub enum FetchPhase {
    /// The contents of the record's path in the store.
    AwaitLocal,
    /// The candidate archives found below the search directory of this index.
    AwaitSearch(usize),
    /// The copy of candidate `.1` of search directory `.0` into the store.
    AwaitCopy(usize, usize),
    /// The download of the archive into the store.
    AwaitDownload,
    /// The removal of what the store holds at the record's path.
    AwaitRemoval,
    /// Nothing: the fetch is over.
    Finished(FetchOutcome),
}

/// What the caller is asked to do next for one record.
#[derive(Debug, Clone, Copy, PartialEq, Eq, Structural)]
pub enum FetchAction {
    /// Read the file at the record's path, if there is one.
    ReadLocal,
    /// Read every archive named after the record below this search directory.
    SearchDir(usize),
    /// Copy that candidate into the record's path.
    CopyCandidate { dir: usize, candidate: usize },
    /// Download the archive into the record's path, then read it back.
    Download,
    /// Remove the file at the record's path.
    Remove,
    /// Nothing more: the fetch ended so.
    Finish(FetchOutcome),
}

/// What the caller observed after doing what it was asked.
pub enum FetchEvent {
    /// Contents of the file at the record's path, if there is one.
    Local(Option<Vec<u8>>),
    /// Contents of the candidates found below a search directory, in order.
    Candidates(Vec<Vec<u8>>),
    /// Whether the copy succeeded.
    Copied(bool),
    /// Contents written by the download, if it completed.
    Downloaded(Option<Vec<u8>>),
    /// The file at the record's path is gone.
    Removed,
}

/// The mathematical value of a `FetchEvent`.
pub enum EventModel {
    Local(Option<Seq<u8>>),
    Candidates(Seq<Seq<u8>>),
    Copied(bool),
    Downloaded(Option<Seq<u8>>),
    Removed,
}

/// The value of optional bytes.
pub open spec fn bytes_view(b: Option<Vec<u8>>) -> Option<Seq<u8>> {
    match b {
        Some(v) => Some(v@),
        None => None,
    }
}

impl View for FetchEvent {
    type V = EventModel;

    open spec fn view(&self) -> EventModel {
        match self {
            FetchEvent::Local(b) => EventModel::Local(bytes_view(*b)),
            FetchEvent::Candidates(cs) => EventModel::Candidates(
                cs@.map_values(|c: Vec<u8>| c@),
            ),
            FetchEvent::Copied(ok) => EventModel::Copied(*ok),
            FetchEvent::Downloaded(b) => EventModel::Downloaded(bytes_view(*b)),
            FetchEvent::Removed => EventModel::Removed,
        }
    }
}

/// Optional contents that are there and agree with the checksum.
pub open spec fn accepted(b: Option<Seq<u8>>, cksum: Seq<char>) -> bool {
    match b {
        Some(d) => checksum_accepts(d, cksum),
        None => false,
    }
}

/// Index of the first candidate that agrees with the checksum, if any.
pub open spec fn first_accepted(cs: Seq<Seq<u8>>, cksum: Seq<char>) -> Option<nat>
    decreases cs.len(),
{
    if cs.len() == 0 {
        None
    } else {
        match first_accepted(cs.drop_last(), cksum) {
            Some(k) => Some(k),
            None => if checksum_accepts(cs.last(), cksum) {
                Some((cs.len() - 1) as nat)
            } else {
                None
            },
        }
    }
}

/// Where the search goes after search directory `i` of `dirs` held no
/// match: the next directory, or the network.
pub open spec fn after_search(i: int, dirs: nat) -> FetchPhase {
    if i + 1 < dirs {
        FetchPhase::AwaitSearch((i + 1) as usize)
    } else {
        FetchPhase::AwaitDownload
    }
}

/// The next phase of the fetch of a record with checksum `cksum`, given
/// `dirs` search directories, after event `ev`; an event that the phase
/// does not wait for changes nothing.
pub open spec fn next_phase(phase: FetchPhase, ev: EventModel, cksum: Seq<char>, dirs: nat) -> FetchPhase {
    match (phase, ev) {
        (FetchPhase::AwaitLocal, EventModel::Local(b)) => if accepted(b, cksum) {
            FetchPhase::Finished(FetchOutcome::LocalHit)
        } else {
            after_search(-1, dirs)
        },
        (FetchPhase::AwaitSearch(i), EventModel::Candidates(cs)) => match first_accepted(
            cs,
            cksum,
        ) {
            Some(k) => FetchPhase::AwaitCopy(i, k as usize),
            None => after_search(i as int, dirs),
        },
        (FetchPhase::AwaitCopy(_, _), EventModel::Copied(ok)) => if ok {
            FetchPhase::Finished(FetchOutcome::SearchPathHit)
        } else {
            FetchPhase::AwaitRemoval
        },
        (FetchPhase::AwaitDownload, EventModel::Downloaded(b)) => if accepted(b, cksum) {
            FetchPhase::Finished(FetchOutcome::Downloaded)
        } else {
            FetchPhase::AwaitRemoval
        },
        (FetchPhase::AwaitRemoval, EventModel::Removed) => FetchPhase::Finished(
            FetchOutcome::Failed,
        ),
        _ => phase,
    }
}

/// What a phase asks the caller to do.
pub open spec fn action_of(phase: FetchPhase) -> FetchAction {
    match phase {
        FetchPhase::AwaitLocal => FetchAction::ReadLocal,
        FetchPhase::AwaitSearch(i) => FetchAction::SearchDir(i),
        FetchPhase::AwaitCopy(d, k) => FetchAction::CopyCandidate { dir: d, candidate: k },
        FetchPhase::AwaitDownload => FetchAction::Download,
        FetchPhase::AwaitRemoval => FetchAction::Remove,
        FetchPhase::Finished(o) => FetchAction::Finish(o),
    }
}

/// The fetch of one record.
pub struct FetchTask {
    checksum: String,
    search_dirs: usize,
    phase: FetchPhase,
}

impl FetchTask {
    /// The checksum that the record's archive must agree with.
    pub closed spec fn cksum(&self) -> Seq<char> {
        self.checksum@
    }

    /// How many search directories come before the network.
    pub closed spec fn dirs(&self) -> nat {
        self.search_dirs as nat
    }

    /// What the fetch waits for.
    pub closed spec fn phase(&self) -> FetchPhase {
        self.phase
    }

    /// The fetch of `record`, with `search_dirs` search directories to try
    /// before the network; it first asks for the store's own file.
    pub fn new(record: &CrateData, search_dirs: usize) -> (r: FetchTask)
        ensures
            r.cksum() == record.cksum@,
            r.dirs() == search_dirs,
            r.phase() == FetchPhase::AwaitLocal,
    {
        FetchTask { checksum: record.cksum.clone(), search_dirs, phase: FetchPhase::AwaitLocal }
    }

    /// What the caller is asked to do now.
    pub fn action(&self) -> (r: FetchAction)
        ensures
            r == action_of(self.phase()),
    {
        match self.phase {
            FetchPhase::AwaitLocal => FetchAction::ReadLocal,
            FetchPhase::AwaitSearch(i) => FetchAction::SearchDir(i),
            FetchPhase::AwaitCopy(d, k) => FetchAction::CopyCandidate { dir: d, candidate: k },
            FetchPhase::AwaitDownload => FetchAction::Download,
            FetchPhase::AwaitRemoval => FetchAction::Remove,
            FetchPhase::Finished(o) => FetchAction::Finish(o),
        }
    }

    /// Whether the fetch is over.
    pub fn is_finished(&self) -> (r: bool)
        ensures
            r == (self.phase() is Finished),
    {
        match self.phase {
            FetchPhase::Finished(_) => true,
            _ => false,
        }
    }

    /// Takes in what the caller observed and returns what it must do next.
    pub fn step(&mut self, event: FetchEvent) -> (r: FetchAction)
        ensures
            final(self).cksum() == old(self).cksum(),
            final(self).dirs() == old(self).dirs(),
            final(self).phase() == next_phase(
                old(self).phase(),
                event@,
                old(self).cksum(),
                old(self).dirs(),
            ),
            r == action_of(final(self).phase()),
    {
        let next = match (self.phase, event) {
            (FetchPhase::AwaitLocal, FetchEvent::Local(b)) => {
                if self.accepts(&b) {
                    FetchPhase::Finished(FetchOutcome::LocalHit)
                } else if self.search_dirs > 0 {
                    FetchPhase::AwaitSearch(0)
                } else {
                    FetchPhase::AwaitDownload
                }
            },
            (FetchPhase::AwaitSearch(i), FetchEvent::Candidates(cs)) => {
                match first_match(&cs, self.checksum.as_str()) {
                    Some(k) => FetchPhase::AwaitCopy(i, k),
                    None => {
                        if i < self.search_dirs && i + 1 < self.search_dirs {
                            FetchPhase::AwaitSearch(i + 1)
                        } else {
                            FetchPhase::AwaitDownload
                        }
                    },
                }
            },
            (FetchPhase::AwaitCopy(_, _), FetchEvent::Copied(ok)) => {
                if ok {
                    FetchPhase::Finished(FetchOutcome::SearchPathHit)
                } else {
                    FetchPhase::AwaitRemoval
                }
            },
            (FetchPhase::AwaitDownload, FetchEvent::Downloaded(b)) => {
                if self.accepts(&b) {
                    FetchPhase::Finished(FetchOutcome::Downloaded)
                } else {
                    FetchPhase::AwaitRemoval
                }
            },
            (FetchPhase::AwaitRemoval, FetchEvent::Removed) => FetchPhase::Finished(
                FetchOutcome::Failed,
            ),
            _ => self.phase,
        };
        self.phase = next;
        self.action()
    }

    fn accepts(&self, b: &Option<Vec<u8>>) -> (r: bool)
        ensures
            r == accepted(bytes_view(*b), self.cksum()),
    {
        match b {
            Some(d) => checksum_matches(d.as_slice(), self.checksum.as_str()),
            None => false,
        }
    }
}

/// Index of the first candidate whose contents agree with the checksum.
fn first_match(cs: &Vec<Vec<u8>>, cksum: &str) -> (r: Option<usize>)
    ensures
        match r {
            Some(k) => first_accepted(cs@.map_values(|c: Vec<u8>| c@), cksum@) == Some(k as nat),
            None => first_accepted(cs@.map_values(|c: Vec<u8>| c@), cksum@) is None,
        },
{
    let ghost all = cs@.map_values(|c: Vec<u8>| c@);
    let mut i: usize = 0;
    while i < cs.len()
        invariant
            i <= cs@.len(),
            all == cs@.map_values(|c: Vec<u8>| c@),
            first_accepted(all.take(i as int), cksum@) is None,
        decreases cs@.len() - i,
    {
        assert(all.take(i + 1).drop_last() =~= all.take(i as int));
        assert(all.take(i + 1).last() == cs@[i as int]@);
        if checksum_matches(cs[i].as_slice(), cksum) {
            proof {
                lemma_first_accepted_prefix(all, cksum@, i + 1);
            }
            return Some(i);
        }
        i = i + 1;
    }
    assert(all.take(i as int) =~= all);
    None
}

/// A match found in a prefix is the first match of the whole sequence.
proof fn lemma_first_accepted_prefix(cs: Seq<Seq<u8>>, cksum: Seq<char>, n: int)
    requires
        0 <= n <= cs.len(),
        first_accepted(cs.take(n), cksum) is Some,
    ensures
        first_accepted(cs, cksum) == first_accepted(cs.take(n), cksum),
    decreases cs.len() - n,
{
    if n < cs.len() {
        assert(cs.take(n + 1).drop_last() =~= cs.take(n));
        lemma_first_accepted_prefix(cs, cksum, n + 1);
    } else {
        assert(cs.take(n) =~= cs);
    }
}

/// Whatever the caller observes, the fetch never ends as downloaded without
/// contents that agree with the checksum, never ends as a local hit
/// without such contents at the record's path, and sends contents that
/// disagree to removal rather than keeping them; a finished fetch stays
/// finished.
pub proof fn lemma_checksum_gate(phase: FetchPhase, ev: EventModel, cksum: Seq<char>, dirs: nat)
    ensures
        phase is Finished ==> next_phase(phase, ev, cksum, dirs) == phase,
        phase == FetchPhase::AwaitDownload ==> match ev {
            EventModel::Downloaded(b) => if accepted(b, cksum) {
                next_phase(phase, ev, cksum, dirs) == FetchPhase::Finished(
                    FetchOutcome::Downloaded,
                )
            } else {
                next_phase(phase, ev, cksum, dirs) == FetchPhase::AwaitRemoval
            },
            _ => next_phase(phase, ev, cksum, dirs) == phase,
        },
        !(phase is Finished) && next_phase(phase, ev, cksum, dirs) == FetchPhase::Finished(
            FetchOutcome::Downloaded,
        ) ==> (ev matches EventModel::Downloaded(b) && accepted(b, cksum)),
        !(phase is Finished) && next_phase(phase, ev, cksum, dirs) == FetchPhase::Finished(
            FetchOutcome::LocalHit,
        ) ==> (ev matches EventModel::Local(b) && accepted(b, cksum)),
{
}

/// How many downloads one worker may still start: its bound is loose on
/// purpose, each worker counting only its own.
pub struct DownloadBudget {
    limit: i32,
    downloaded: u64,
}

impl DownloadBudget {
    /// The bound: zero or less means none.
    pub closed spec fn bound(&self) -> int {
        self.limit as int
    }

    /// Downloads started so far.
    pub closed spec fn count(&self) -> nat {
        self.downloaded as nat
    }

    /// A budget of `limit` downloads, none started yet.
    pub fn new(limit: i32) -> (r: DownloadBudget)
        ensures
            r.bound() == limit,
            r.count() == 0,
    {
        DownloadBudget { limit, downloaded: 0 }
    }

    /// Counts one more download.
    pub fn record_download(&mut self)
        ensures
            final(self).bound() == old(self).bound(),
            final(self).count() == if old(self).count() < u64::MAX {
                old(self).count() + 1
            } else {
                old(self).count()
            },
    {
        if self.downloaded < u64::MAX {
            self.downloaded = self.downloaded + 1;
        }
    }

    /// Whether the worker has used up its downloads.
    pub fn exhausted(&self) -> (r: bool)
        ensures
            r == (self.bound() > 0 && self.count() >= self.bound()),
    {
        self.limit > 0 && self.downloaded >= self.limit as u64
    }
}

/// Hands out work to a fixed number of workers in turn.
pub struct Dispatcher {
    workers: usize,
    next: usize,
}

impl Dispatcher {
    /// How many workers take turns.
    pub closed spec fn workers(&self) -> nat {
        self.workers as nat
    }

    /// The worker whose turn it is.
    pub closed spec fn turn(&self) -> nat {
        self.next as nat
    }

    /// The dispatcher's own invariant: the turn is a worker's.
    pub open spec fn wf(&self) -> bool {
        self.turn() < self.workers()
    }

    /// Turns among `workers` workers, starting with the first.
    pub fn new(workers: usize) -> (r: Dispatcher)
        requires
            workers > 0,
        ensures
            r.wf(),
            r.workers() == workers,
            r.turn() == 0,
    {
        Dispatcher { workers, next: 0 }
    }

    /// The worker that takes the next unit of work; the turn passes on.
    pub fn assign(&mut self) -> (r: usize)
        requires
            old(self).wf(),
        ensures
            final(self).wf(),
            final(self).workers() == old(self).workers(),
            r == old(self).turn(),
            final(self).turn() == (old(self).turn() + 1) % old(self).workers(),
    {
        let r = self.next;
        if self.next + 1 < self.workers {
            self.next = self.next + 1;
            assert((r + 1) as nat % self.workers as nat == r + 1) by (nonlinear_arith)
                requires
                    r + 1 < self.workers,
            ;
        } else {
            self.next = 0;
            assert((r + 1) as nat % self.workers as nat == 0) by (nonlinear_arith)
                requires
                    r + 1 == self.workers,
                    self.workers > 0,
            ;
        }
        r
    }
}

} // verus!
