//! Run outcomes, failure categories, commit causes and the registry of active runs.
use vstd::prelude::*;

use crate::error::Error;
use crate::model::{CanonicalMessage, ConversationId, RunId, ToolRoundId};

verus! {

/// Why a run failed.
#[derive(Clone, Debug, PartialEq, Eq)]
pub enum RunFailure {
    Protocol(String),
    Provider(String),
    Store(String),
    Client(String),
}

/// How a run ended.
#[derive(Clone, Debug, PartialEq, Eq)]
pub enum RunOutcome {
    Completed,
    Cancelled,
    Failed(RunFailure),
}

/// Why conversation state was committed.
#[derive(Clone, Debug, PartialEq, Eq)]
pub enum CommitCause {
    InitialMessages,
    ToolRoundStarted(ToolRoundId),
    ToolResult { call_id: String, interrupted: bool },
    FinalTurn,
    Compaction { summary: String },
    RuntimeEvent { event_id: String },
}

/// The category name of a failure.
pub open spec fn category_of(failure: RunFailure) -> Seq<char> {
    match failure {
        RunFailure::Protocol(_) => "protocol"@,
        RunFailure::Provider(_) => "provider"@,
        RunFailure::Store(_) => "store"@,
        RunFailure::Client(_) => "client"@,
    }
}

/// The failure an error becomes, as a category and a message.
pub open spec fn failure_of(error: Error) -> (Seq<char>, Seq<char>) {
    match error {
        Error::Protocol(m) => ("protocol"@, m@),
        Error::Config(m) => ("protocol"@, m@),
        Error::Provider(m) => ("provider"@, m@),
        Error::Store(m) => ("store"@, m@),
        Error::Cancelled => ("client"@, "run was cancelled"@),
        Error::Http(m) => ("provider"@, m@),
        Error::Database(m) => ("store"@, m@),
        Error::Migration(m) => ("store"@, m@),
        Error::Io(m) => ("store"@, m@),
        Error::Decode(m) => ("protocol"@, m@),
        Error::Encode(m) => ("protocol"@, m@),
        Error::Json(m) => ("protocol"@, m@),
        Error::RunNotFound(id) => ("store"@, "run not found: "@ + id@),
    }
}

/// The message a failure carries.
pub open spec fn failure_message(failure: RunFailure) -> Seq<char> {
    match failure {
        RunFailure::Protocol(m) => m@,
        RunFailure::Provider(m) => m@,
        RunFailure::Store(m) => m@,
        RunFailure::Client(m) => m@,
    }
}

impl RunFailure {
    /// The category name of this failure.
    pub fn category(&self) -> (r: &'static str)
        ensures
            r@ == category_of(*self),
    {
        match self {
            RunFailure::Protocol(_) => "protocol",
            RunFailure::Provider(_) => "provider",
            RunFailure::Store(_) => "store",
            RunFailure::Client(_) => "client",
        }
    }

    /// The failure that an error ends a run with.
    pub fn from(error: Error) -> (r: RunFailure)
        ensures
            (category_of(r), failure_message(r)) == failure_of(error),
    {
        match error {
            Error::Protocol(message) => RunFailure::Protocol(message),
            Error::Config(message) => RunFailure::Protocol(message),
            Error::Provider(message) => RunFailure::Provider(message),
            Error::Store(message) => RunFailure::Store(message),
            Error::Cancelled => RunFailure::Client(String::from_str("run was cancelled")),
            Error::Http(message) => RunFailure::Provider(message),
            Error::Database(message) => RunFailure::Store(message),
            Error::Migration(message) => RunFailure::Store(message),
            Error::Io(message) => RunFailure::Store(message),
            Error::Decode(message) => RunFailure::Protocol(message),
            Error::Encode(message) => RunFailure::Protocol(message),
            Error::Json(message) => RunFailure::Protocol(message),
            Error::RunNotFound(run_id) => {
                let mut message = String::from_str("run not found: ");
                message.append(run_id.as_str());
                RunFailure::Store(message)
            },
        }
    }
}


/// The runs after `run` became the active run of `conversation`.
pub open spec fn activated<H>(
    runs: Map<Seq<char>, (Seq<char>, H)>,
    conversation: Seq<char>,
    run: Seq<char>,
    handle: H,
) -> Map<Seq<char>, (Seq<char>, H)> {
    runs.insert(conversation, (run, handle))
}

/// The runs after `run` of `conversation` ended: its entry goes only while
/// `run` is still the conversation's active run.
pub open spec fn released<H>(
    runs: Map<Seq<char>, (Seq<char>, H)>,
    conversation: Seq<char>,
    run: Seq<char>,
) -> Map<Seq<char>, (Seq<char>, H)> {
    if runs.contains_key(conversation) && runs[conversation].0 == run {
        runs.remove(conversation)
    } else {
        runs
    }
}

/// Whether `handle` belongs to one of the runs in `runs`.
pub open spec fn is_handle_of<H>(runs: Map<Seq<char>, (Seq<char>, H)>, handle: H) -> bool {
    exists|k: Seq<char>| #[trigger] runs.contains_key(k) && runs[k].1 == handle
}

/// The run currently active in a conversation, with the handle through which
/// it is reached (its cancellation and command channel).
pub struct ActiveRun<H> {
    pub run_id: RunId,
    pub handle: H,
}

/// Where a batch of inserted messages goes.
pub enum InsertTarget<'a, H> {
    /// The batch is empty: it is delivered at once.
    Nothing,
    /// No run is active in the conversation: the batch is not delivered.
    NoActiveRun,
    /// The conversation's active run, reached through its handle.
    Run(&'a H),
}

/// The active run of each conversation. At most one run is active per
/// conversation.
///
/// The entries are kept in a vector with no conversation twice rather than in
/// a hash map: conversations are keyed by string ids, and for string keys the
/// map specifications that vstd offers do not carry over to the map's
/// contents, while the vector's invariant lets every operation be stated and
/// proved over the `Map` view.
pub struct ActiveRuns<H> {
    entries: Vec<(ConversationId, ActiveRun<H>)>,
}

impl<H> ActiveRuns<H> {
    /// No two entries belong to the same conversation.
    pub closed spec fn wf(&self) -> bool {
        forall|i: int, j: int|
            0 <= i < j < self.entries@.len() ==> (#[trigger] self.entries@[i]).0.0@
                != (#[trigger] self.entries@[j]).0.0@
    }

    closed spec fn index_of(&self, key: Seq<char>) -> int {
        choose|i: int| 0 <= i < self.entries@.len() && self.entries@[i].0.0@ == key
    }

    /// Each conversation with an active run, mapped to that run's id and handle.
    pub closed spec fn view(&self) -> Map<Seq<char>, (Seq<char>, H)> {
        Map::new(
            |k: Seq<char>| exists|i: int| 0 <= i < self.entries@.len() && self.entries@[i].0.0@ == k,
            |k: Seq<char>|
                {
                    let i = self.index_of(k);
                    (self.entries@[i].1.run_id.0@, self.entries@[i].1.handle)
                },
        )
    }

    proof fn lemma_entry(&self, i: int)
        requires
            self.wf(),
            0 <= i < self.entries@.len(),
        ensures
            self.view().contains_key(self.entries@[i].0.0@),
            self.view()[self.entries@[i].0.0@] == (
                self.entries@[i].1.run_id.0@,
                self.entries@[i].1.handle,
            ),
    {
        let k = self.entries@[i].0.0@;
        assert(exists|j: int| 0 <= j < self.entries@.len() && self.entries@[j].0.0@ == k);
        let j = self.index_of(k);
        if j != i {
            if j < i {
                assert(self.entries@[j].0.0@ != self.entries@[i].0.0@);
            } else {
                assert(self.entries@[i].0.0@ != self.entries@[j].0.0@);
            }
        }
    }

    /// A registry with no active runs.
    pub fn new() -> (r: Self)
        ensures
            r.wf(),
            r.view() == Map::<Seq<char>, (Seq<char>, H)>::empty(),
    {
        let r = ActiveRuns { entries: Vec::new() };
        assert(r.view() =~= Map::<Seq<char>, (Seq<char>, H)>::empty());
        r
    }

    fn find(&self, conversation_id: &ConversationId) -> (r: Option<usize>)
        requires
            self.wf(),
        ensures
            r matches Some(i) ==> i < self.entries@.len() && self.entries@[i as int].0.0@
                == conversation_id.0@,
            r is None ==> !self.view().contains_key(conversation_id.0@),
    {
        let mut i: usize = 0;
        while i < self.entries.len()
            invariant
                i <= self.entries@.len(),
                forall|j: int| 0 <= j < i ==> self.entries@[j].0.0@ != conversation_id.0@,
            decreases self.entries.len() - i,
        {
            if self.entries[i].0.0 == conversation_id.0 {
                return Some(i);
            }
            i += 1;
        }
        None
    }

    /// The handle of the conversation's active run.
    pub fn get(&self, conversation_id: &ConversationId) -> (r: Option<&H>)
        requires
            self.wf(),
        ensures
            match r {
                Some(h) => self.view().contains_key(conversation_id.0@) && *h
                    == self.view()[conversation_id.0@].1,
                None => !self.view().contains_key(conversation_id.0@),
            },
    {
        match self.find(conversation_id) {
            Some(i) => {
                proof {
                    self.lemma_entry(i as int);
                }
                Some(&self.entries[i].1.handle)
            },
            None => None,
        }
    }

    /// Where a batch of messages inserted into a conversation goes: an empty
    /// batch needs no run; otherwise it goes to the conversation's active run,
    /// if there is one.
    pub fn insertion_target<'a>(&'a self, conversation_id: &ConversationId, messages: &[CanonicalMessage]) -> (r:
        InsertTarget<'a, H>)
        requires
            self.wf(),
        ensures
            messages.len() == 0 ==> r is Nothing,
            messages.len() > 0 && !self.view().contains_key(conversation_id.0@) ==> r is NoActiveRun,
            messages.len() > 0 && self.view().contains_key(conversation_id.0@) ==> (r matches InsertTarget::Run(h)
                && *h == self.view()[conversation_id.0@].1),
    {
        if messages.len() == 0 {
            return InsertTarget::Nothing;
        }
        match self.get(conversation_id) {
            Some(h) => InsertTarget::Run(h),
            None => InsertTarget::NoActiveRun,
        }
    }

    /// Makes `run_id` the active run of the conversation. Returns the handle of
    /// the run it replaces when that is a different run, which the caller cancels.
    pub fn activate(&mut self, conversation_id: ConversationId, run_id: RunId, handle: H) -> (r:
        Option<H>)
        requires
            old(self).wf(),
        ensures
            final(self).wf(),
            final(self).view() == activated(old(self).view(), conversation_id.0@, run_id.0@, handle),
            r == (if old(self).view().contains_key(conversation_id.0@) && old(self).view()[
                conversation_id.0@].0 != run_id.0@ {
                Some(old(self).view()[conversation_id.0@].1)
            } else {
                None
            }),
    {
        let ghost key = conversation_id.0@;
        let ghost new_run = run_id.0@;
        let ghost new_value = (run_id.0@, handle);
        match self.find(&conversation_id) {
            Some(i) => {
                proof {
                    self.lemma_entry(i as int);
                }
                let mut entry = (conversation_id, ActiveRun { run_id, handle });
                self.entries.set_and_swap(i, &mut entry);
                proof {
                    assert(self.wf()) by {
                        assert forall|a: int, b: int|
                            0 <= a < b < self.entries@.len() implies (#[trigger] self.entries@[a]).0.0@
                            != (#[trigger] self.entries@[b]).0.0@ by {
                            assert(old(self).entries@[a].0.0@ != old(self).entries@[b].0.0@);
                        }
                    }
                    self.lemma_entry(i as int);
                    assert forall|k: Seq<char>| #[trigger] self.view().contains_key(k) == old(self).view().insert(key, new_value).contains_key(k) by {
                        if self.view().contains_key(k) {
                            let j = choose|j: int| 0 <= j < self.entries@.len() && self.entries@[j].0.0@ == k;
                            if j != i {
                                old(self).lemma_entry(j);
                            }
                        }
                        if old(self).view().contains_key(k) {
                            let j = choose|j: int| 0 <= j < old(self).entries@.len() && old(self).entries@[j].0.0@ == k;
                            self.lemma_entry(j);
                        }
                    }
                    assert forall|k: Seq<char>| #[trigger] self.view().contains_key(k) implies self.view()[k] == old(self).view().insert(key, new_value)[k] by {
                        if k != key {
                            let j = choose|j: int| 0 <= j < self.entries@.len() && self.entries@[j].0.0@ == k;
                            self.lemma_entry(j);
                            old(self).lemma_entry(j);
                        }
                    }
                    assert(self.view() =~= old(self).view().insert(key, new_value));
                }
                let (_, previous) = entry;
                if previous.run_id.0 != self.entries[i].1.run_id.0 {
                    Some(previous.handle)
                } else {
                    None
                }
            },
            None => {
                self.entries.push((conversation_id, ActiveRun { run_id, handle }));
                proof {
                    let n = self.entries@.len() - 1;
                    assert(self.wf()) by {
                        assert forall|a: int, b: int|
                            0 <= a < b < self.entries@.len() implies (#[trigger] self.entries@[a]).0.0@
                            != (#[trigger] self.entries@[b]).0.0@ by {
                            if b == n {
                                if old(self).entries@[a].0.0@ == key {
                                    old(self).lemma_entry(a);
                                }
                            } else {
                                assert(old(self).entries@[a].0.0@ != old(self).entries@[b].0.0@);
                            }
                        }
                    }
                    self.lemma_entry(n);
                    assert forall|k: Seq<char>| #[trigger] self.view().contains_key(k) == old(self).view().insert(key, new_value).contains_key(k) by {
                        if self.view().contains_key(k) {
                            let j = choose|j: int| 0 <= j < self.entries@.len() && self.entries@[j].0.0@ == k;
                            if j != n {
                                old(self).lemma_entry(j);
                            }
                        }
                        if old(self).view().contains_key(k) {
                            let j = choose|j: int| 0 <= j < old(self).entries@.len() && old(self).entries@[j].0.0@ == k;
                            self.lemma_entry(j);
                        }
                    }
                    assert forall|k: Seq<char>| #[trigger] self.view().contains_key(k) implies self.view()[k] == old(self).view().insert(key, new_value)[k] by {
                        if k != key {
                            let j = choose|j: int| 0 <= j < self.entries@.len() && self.entries@[j].0.0@ == k;
                            self.lemma_entry(j);
                            old(self).lemma_entry(j);
                        }
                    }
                    assert(self.view() =~= old(self).view().insert(key, new_value));
                }
                None
            },
        }
    }

    /// Ends the conversation's entry when `run_id` is still its active run; a
    /// newer run of the conversation stays registered.
    pub fn release(&mut self, conversation_id: &ConversationId, run_id: &RunId)
        requires
            old(self).wf(),
        ensures
            final(self).wf(),
            final(self).view() == released(old(self).view(), conversation_id.0@, run_id.0@),
    {
        let ghost key = conversation_id.0@;
        match self.find(conversation_id) {
            Some(i) => {
                proof {
                    self.lemma_entry(i as int);
                }
                if self.entries[i].1.run_id.0 == run_id.0 {
                    let _ = self.entries.remove(i);
                    proof {
                        let o = old(self).entries@;
                        assert(self.entries@ == o.remove(i as int));
                        assert(self.wf()) by {
                            assert forall|a: int, b: int|
                                0 <= a < b < self.entries@.len() implies (#[trigger] self.entries@[a]).0.0@
                                != (#[trigger] self.entries@[b]).0.0@ by {
                                let oa = if a < i { a } else { a + 1 };
                                let ob = if b < i { b } else { b + 1 };
                                assert(o[oa].0.0@ != o[ob].0.0@);
                            }
                        }
                        assert forall|k: Seq<char>| #[trigger] self.view().contains_key(k) == old(self).view().remove(key).contains_key(k) by {
                            if self.view().contains_key(k) {
                                let j = choose|j: int| 0 <= j < self.entries@.len() && self.entries@[j].0.0@ == k;
                                let oj = if j < i { j } else { j + 1 };
                                old(self).lemma_entry(oj);
                                assert(o[i as int].0.0@ != o[oj].0.0@ || oj == i);
                            }
                            if old(self).view().contains_key(k) && k != key {
                                let j = choose|j: int| 0 <= j < o.len() && o[j].0.0@ == k;
                                let nj = if j < i { j } else { j - 1 };
                                self.lemma_entry(nj);
                            }
                        }
                        assert forall|k: Seq<char>| #[trigger] self.view().contains_key(k) implies self.view()[k] == old(self).view().remove(key)[k] by {
                            let j = choose|j: int| 0 <= j < self.entries@.len() && self.entries@[j].0.0@ == k;
                            let oj = if j < i { j } else { j + 1 };
                            self.lemma_entry(j);
                            old(self).lemma_entry(oj);
                        }
                        assert(self.view() =~= old(self).view().remove(key));
                    }
                }
            },
            None => {},
        }
    }

    /// Ends every active run, handing back all their handles for cancellation.
    pub fn shutdown(&mut self) -> (r: Vec<H>)
        requires
            old(self).wf(),
        ensures
            final(self).wf(),
            final(self).view() == Map::<Seq<char>, (Seq<char>, H)>::empty(),
            forall|k: Seq<char>| #[trigger] old(self).view().contains_key(k) ==> r@.contains(old(self).view()[k].1),
            forall|j: int| 0 <= j < r@.len() ==> is_handle_of(old(self).view(), #[trigger] r@[j]),
    {
        let ghost o = self.entries@;
        let mut taken: Vec<(ConversationId, ActiveRun<H>)> = Vec::new();
        core::mem::swap(&mut self.entries, &mut taken);
        let mut out: Vec<H> = Vec::new();
        while taken.len() > 0
            invariant
                out.len() + taken.len() == o.len(),
                taken@ == o.take(taken.len() as int),
                forall|j: int| 0 <= j < out.len() ==> out@[j] == o[o.len() - 1 - j].1.handle,
            decreases taken.len(),
        {
            let ghost before = taken@;
            let (_, run) = taken.pop().unwrap();
            assert(taken@ =~= o.take(taken.len() as int));
            out.push(run.handle);
        }
        proof {
            assert(self.view() =~= Map::<Seq<char>, (Seq<char>, H)>::empty());
            assert forall|k: Seq<char>| #[trigger] old(self).view().contains_key(k) implies out@.contains(old(self).view()[k].1) by {
                let i = choose|i: int| 0 <= i < o.len() && o[i].0.0@ == k;
                old(self).lemma_entry(i);
                assert(out@[o.len() - 1 - i] == o[i].1.handle);
            }
            assert forall|j: int| 0 <= j < out@.len() implies is_handle_of(old(self).view(), #[trigger] out@[j]) by {
                old(self).lemma_entry(o.len() - 1 - j);
                let k = o[o.len() - 1 - j].0.0@;
                assert(old(self).view().contains_key(k) && old(self).view()[k].1 == out@[j]);
            }
        }
        out
    }
}

/// A run that is activated and then released leaves no entry for its
/// conversation, whatever was registered before.
pub proof fn law_release_undoes_activate<H>(
    runs: Map<Seq<char>, (Seq<char>, H)>,
    conversation: Seq<char>,
    run: Seq<char>,
    handle: H,
)
    ensures
        released(activated(runs, conversation, run, handle), conversation, run) == runs.remove(
            conversation,
        ),
{
    assert(released(activated(runs, conversation, run, handle), conversation, run) =~= runs.remove(
        conversation,
    ));
}

/// When an older run of a conversation ends after a newer run replaced it, the
/// newer run stays registered.
pub proof fn law_stale_release_keeps_newer_run<H>(
    runs: Map<Seq<char>, (Seq<char>, H)>,
    conversation: Seq<char>,
    older: Seq<char>,
    newer: Seq<char>,
    handle: H,
)
    requires
        older != newer,
    ensures
        released(activated(runs, conversation, newer, handle), conversation, older) == activated(
            runs,
            conversation,
            newer,
            handle,
        ),
{
}

/// Ending a run leaves the other conversations' runs as they were.
pub proof fn law_release_is_local<H>(
    runs: Map<Seq<char>, (Seq<char>, H)>,
    conversation: Seq<char>,
    run: Seq<char>,
    other: Seq<char>,
)
    requires
        other != conversation,
    ensures
        released(runs, conversation, run).contains_key(other) == runs.contains_key(other),
        runs.contains_key(other) ==> released(runs, conversation, run)[other] == runs[other],
{
}

} // verus!
