use vstd::prelude::*;

use crate::errors::ProcError;
use crate::output::{buffer_step, drain_result, OutputBuffer, ReadStep};

verus! {

/// What the embedding program observed when it asked the operating system
/// to spawn a process: the new process and whether its output pipe could be
/// taken, or the refusal text.
pub enum SpawnOutcome {
    Spawned { pid: u64, stdout_captured: bool },
    Failed { detail: String },
}

/// What a non-blocking poll of a process's state observed.
#[derive(Clone, Copy, Debug)]
pub enum PollStatus {
    /// The process has terminated.
    Exited,
    /// The process is still running.
    Running,
    /// The poll itself failed; nothing is known.
    PollError,
}

/// One tracked process: its registry name, its process identifier, the
/// buffered output received from it, and whether its output reader is still
/// attached.
#[derive(Debug)]
pub struct ProcessEntry {
    pub name: String,
    pub pid: u64,
    pub stdout: OutputBuffer,
    pub reader_attached: bool,
}

/// Whether some entry carries the name `n`.
pub open spec fn has_name(entries: Seq<ProcessEntry>, n: Seq<char>) -> bool {
    exists|i: int| 0 <= i < entries.len() && entries[i].name@ == n
}

/// The index of the entry named `n`; meaningful only under `distinct_names`
/// and `has_name`.
pub open spec fn index_of_name(entries: Seq<ProcessEntry>, n: Seq<char>) -> int {
    choose|i: int| 0 <= i < entries.len() && entries[i].name@ == n
}

/// No two entries share a name.
pub open spec fn distinct_names(entries: Seq<ProcessEntry>) -> bool {
    forall|i: int, j: int|
        0 <= i < j < entries.len() ==> entries[i].name@ != entries[j].name@
}

/// Both entries agree on everything but the output buffer.
pub open spec fn same_entry_except_stdout(pre: ProcessEntry, post: ProcessEntry) -> bool {
    &&& post.name@ == pre.name@
    &&& post.pid == pre.pid
    &&& post.reader_attached == pre.reader_attached
}

/// Under distinct names, the index of a name is the only index holding it.
pub proof fn lemma_index_of_name_unique(entries: Seq<ProcessEntry>, n: Seq<char>, i: int)
    requires
        distinct_names(entries),
        0 <= i < entries.len(),
        entries[i].name@ == n,
    ensures
        index_of_name(entries, n) == i,
        has_name(entries, n),
{
    assert(has_name(entries, n));
    let j = index_of_name(entries, n);
    assert(0 <= j < entries.len() && entries[j].name@ == n);
    if i < j {
        assert(entries[i].name@ != entries[j].name@);
    } else if j < i {
        assert(entries[j].name@ != entries[i].name@);
    }
}

/// The supervisor's registry of named child processes.
///
/// The registry serializes every decision about its mapping: whether a name
/// is free, which entry a read drains, what teardown removes. The embedding
/// program performs the operating-system calls and reports each outcome
/// here as a plain value.
pub struct PythonProcessManager {
    entries: Vec<ProcessEntry>,
}

impl View for PythonProcessManager {
    type V = Seq<ProcessEntry>;

    closed spec fn view(&self) -> Seq<ProcessEntry> {
        self.entries@
    }
}

impl PythonProcessManager {
    /// The registry invariant: entry names are pairwise distinct, so each
    /// name maps to at most one live process.
    pub open spec fn wf(self) -> bool {
        distinct_names(self@)
    }

    /// An empty registry.
    pub fn new() -> (m: PythonProcessManager)
        ensures
            m@.len() == 0,
            m.wf(),
    {
        PythonProcessManager { entries: Vec::new() }
    }

    /// Registers a spawned process under `name`, or reports why it cannot:
    /// a taken name is refused without consulting the outcome, a failed
    /// spawn propagates its detail, and a spawn that yielded no output pipe
    /// is rejected. Only the success case changes the registry: it appends
    /// one entry with an empty, open output buffer.
    pub fn add(&mut self, name: &str, outcome: SpawnOutcome) -> (r: Result<(), ProcError>)
        requires
            old(self).wf(),
        ensures
            final(self).wf(),
            match r {
                Ok(()) => {
                    &&& !has_name(old(self)@, name@)
                    &&& final(self)@.len() == old(self)@.len() + 1
                    &&& final(self)@.take(old(self)@.len() as int) == old(self)@
                    &&& (outcome matches SpawnOutcome::Spawned { pid, stdout_captured }
                        && stdout_captured && final(self)@.last().pid == pid)
                    &&& final(self)@.last().name@ == name@
                    &&& final(self)@.last().stdout.contents().len() == 0
                    &&& !final(self)@.last().stdout.is_closed()
                    &&& final(self)@.last().reader_attached
                    &&& has_name(final(self)@, name@)
                },
                Err(e) => {
                    &&& final(self)@ == old(self)@
                    &&& match e {
                        ProcError::AlreadyExists { name: taken } => {
                            taken@ == name@ && has_name(old(self)@, name@)
                        },
                        ProcError::SpawnFailed { detail } => {
                            !has_name(old(self)@, name@) && (outcome matches SpawnOutcome::Failed {
                                detail: d,
                            } && d == detail)
                        },
                        ProcError::CaptureFailed => {
                            !has_name(old(self)@, name@)
                                && (outcome matches SpawnOutcome::Spawned { pid: _, stdout_captured }
                                && !stdout_captured)
                        },
                        _ => false,
                    }
                },
            },
    {
        match self.find_index(name) {
            Some(_) => Err(ProcError::AlreadyExists { name: name.to_owned() }),
            None => {
                match outcome {
                    SpawnOutcome::Failed { detail } => Err(ProcError::SpawnFailed { detail }),
                    SpawnOutcome::Spawned { pid, stdout_captured } => {
                        if !stdout_captured {
                            Err(ProcError::CaptureFailed)
                        } else {
                            let ghost pre = self.entries@;
                            let entry = ProcessEntry {
                                name: name.to_owned(),
                                pid,
                                stdout: OutputBuffer::new(),
                                reader_attached: true,
                            };
                            self.entries.push(entry);
                            proof {
                                assert(self.entries@.take(pre.len() as int) =~= pre);
                                assert forall|p: int, q: int|
                                    0 <= p < q < self.entries@.len() implies self.entries@[p].name@
                                    != self.entries@[q].name@ by {
                                    if q < pre.len() {
                                    } else {
                                        assert(self.entries@[q].name@ == name@);
                                    }
                                }
                            }
                            Ok(())
                        }
                    },
                }
            },
        }
    }

    /// Takes the next buffered output line of the named process, or reports
    /// `NotFound` for an unknown name. A process without an attached reader
    /// answers end of stream. Only the named entry's buffer changes, and
    /// exactly as one buffered read changes it.
    pub fn read(&mut self, name: &str) -> (r: Result<ReadStep, ProcError>)
        requires
            old(self).wf(),
        ensures
            final(self).wf(),
            match r {
                Err(e) => {
                    &&& final(self)@ == old(self)@
                    &&& !has_name(old(self)@, name@)
                    &&& e matches ProcError::NotFound { name: missing } && missing@ == name@
                },
                Ok(step) => ({
                    let i = index_of_name(old(self)@, name@);
                    &&& has_name(old(self)@, name@)
                    &&& final(self)@.len() == old(self)@.len()
                    &&& (forall|k: int|
                        0 <= k < old(self)@.len() && k != i ==> final(self)@[k] == old(self)@[k])
                    &&& same_entry_except_stdout(old(self)@[i], final(self)@[i])
                    &&& (if old(self)@[i].reader_attached {
                        buffer_step(old(self)@[i].stdout, final(self)@[i].stdout, step)
                    } else {
                        (step matches ReadStep::EndOfStream) && final(self)@[i].stdout == old(
                            self,
                        )@[i].stdout
                    })
                }),
            },
    {
        match self.find_index(name) {
            None => Err(ProcError::NotFound { name: name.to_owned() }),
            Some(i) => {
                proof {
                    lemma_index_of_name_unique(self.entries@, name@, i as int);
                }
                let ghost pre = self.entries@;
                let mut e = self.entries.remove(i);
                let step = if e.reader_attached {
                    e.stdout.next_line()
                } else {
                    ReadStep::EndOfStream
                };
                self.entries.insert(i, e);
                proof {
                    Self::lemma_update_keeps_distinct(pre, self.entries@, i as int);
                }
                Ok(step)
            },
        }
    }

    /// Hands out everything currently buffered for the named process
    /// without waiting for more, or `NotFound` for an unknown name: the
    /// non-blocking sibling of `read`. An empty buffer yields nothing
    /// rather than an error, and the buffer is empty afterwards.
    pub fn read_all(&mut self, name: &str) -> (r: Result<Option<String>, ProcError>)
        requires
            old(self).wf(),
        ensures
            final(self).wf(),
            match r {
                Err(e) => {
                    &&& final(self)@ == old(self)@
                    &&& !has_name(old(self)@, name@)
                    &&& e matches ProcError::NotFound { name: missing } && missing@ == name@
                },
                Ok(opt) => ({
                    let i = index_of_name(old(self)@, name@);
                    &&& has_name(old(self)@, name@)
                    &&& final(self)@.len() == old(self)@.len()
                    &&& (forall|k: int|
                        0 <= k < old(self)@.len() && k != i ==> final(self)@[k] == old(self)@[k])
                    &&& same_entry_except_stdout(old(self)@[i], final(self)@[i])
                    &&& final(self)@[i].stdout.is_closed() == old(self)@[i].stdout.is_closed()
                    &&& (if old(self)@[i].reader_attached {
                        final(self)@[i].stdout.contents().len() == 0 && (match opt {
                            Some(all) => drain_result(old(self)@[i].stdout.contents()) == Some(
                                all@,
                            ),
                            None => drain_result(old(self)@[i].stdout.contents()) is None,
                        })
                    } else {
                        opt is None && final(self)@[i].stdout == old(self)@[i].stdout
                    })
                }),
            },
    {
        match self.find_index(name) {
            None => Err(ProcError::NotFound { name: name.to_owned() }),
            Some(i) => {
                proof {
                    lemma_index_of_name_unique(self.entries@, name@, i as int);
                }
                let ghost pre = self.entries@;
                let mut e = self.entries.remove(i);
                let opt = if e.reader_attached {
                    e.stdout.drain()
                } else {
                    None
                };
                self.entries.insert(i, e);
                proof {
                    Self::lemma_update_keeps_distinct(pre, self.entries@, i as int);
                }
                Ok(opt)
            },
        }
    }

    /// Appends text that the embedding program read from the named
    /// process's output pipe. Text arriving for a closed stream or an
    /// unknown name changes nothing; the latter reports `NotFound`.
    pub fn feed_output(&mut self, name: &str, chunk: &str) -> (r: Result<(), ProcError>)
        requires
            old(self).wf(),
        ensures
            final(self).wf(),
            match r {
                Err(e) => {
                    &&& final(self)@ == old(self)@
                    &&& !has_name(old(self)@, name@)
                    &&& e matches ProcError::NotFound { name: missing } && missing@ == name@
                },
                Ok(()) => ({
                    let i = index_of_name(old(self)@, name@);
                    &&& has_name(old(self)@, name@)
                    &&& final(self)@.len() == old(self)@.len()
                    &&& (forall|k: int|
                        0 <= k < old(self)@.len() && k != i ==> final(self)@[k] == old(self)@[k])
                    &&& same_entry_except_stdout(old(self)@[i], final(self)@[i])
                    &&& final(self)@[i].stdout.is_closed() == old(self)@[i].stdout.is_closed()
                    &&& (if !old(self)@[i].stdout.is_closed() {
                        final(self)@[i].stdout.contents() == old(self)@[i].stdout.contents()
                            + chunk@
                    } else {
                        final(self)@[i].stdout == old(self)@[i].stdout
                    })
                }),
            },
    {
        match self.find_index(name) {
            None => Err(ProcError::NotFound { name: name.to_owned() }),
            Some(i) => {
                proof {
                    lemma_index_of_name_unique(self.entries@, name@, i as int);
                }
                let ghost pre = self.entries@;
                let mut e = self.entries.remove(i);
                if !e.stdout.is_closed_now() {
                    e.stdout.push_text(chunk);
                }
                self.entries.insert(i, e);
                proof {
                    Self::lemma_update_keeps_distinct(pre, self.entries@, i as int);
                }
                Ok(())
            },
        }
    }

    /// Records that the named process's output pipe reached end of file:
    /// its buffer is closed and no further text will arrive.
    pub fn close_output(&mut self, name: &str) -> (r: Result<(), ProcError>)
        requires
            old(self).wf(),
        ensures
            final(self).wf(),
            match r {
                Err(e) => {
                    &&& final(self)@ == old(self)@
                    &&& !has_name(old(self)@, name@)
                    &&& e matches ProcError::NotFound { name: missing } && missing@ == name@
                },
                Ok(()) => ({
                    let i = index_of_name(old(self)@, name@);
                    &&& has_name(old(self)@, name@)
                    &&& final(self)@.len() == old(self)@.len()
                    &&& (forall|k: int|
                        0 <= k < old(self)@.len() && k != i ==> final(self)@[k] == old(self)@[k])
                    &&& same_entry_except_stdout(old(self)@[i], final(self)@[i])
                    &&& final(self)@[i].stdout.contents() == old(self)@[i].stdout.contents()
                    &&& final(self)@[i].stdout.is_closed()
                }),
            },
    {
        match self.find_index(name) {
            None => Err(ProcError::NotFound { name: name.to_owned() }),
            Some(i) => {
                proof {
                    lemma_index_of_name_unique(self.entries@, name@, i as int);
                }
                let ghost pre = self.entries@;
                let mut e = self.entries.remove(i);
                e.stdout.close();
                self.entries.insert(i, e);
                proof {
                    Self::lemma_update_keeps_distinct(pre, self.entries@, i as int);
                }
                Ok(())
            },
        }
    }

    /// Whether the named process counts as exited: an absent name is
    /// treated as "nothing left to wait for", a poll that saw termination
    /// means exited, and a running process or a failed poll conservatively
    /// counts as still running.
    pub fn is_exited(&self, name: &str, poll: PollStatus) -> (r: bool)
        ensures
            r == (!has_name(self@, name@) || poll is Exited),
    {
        match self.find_index(name) {
            None => true,
            Some(_) => match poll {
                PollStatus::Exited => true,
                PollStatus::Running => false,
                PollStatus::PollError => false,
            },
        }
    }

    /// Detaches the named entry and hands it back so the embedding program
    /// can kill and reap the process. The entry leaves the registry before
    /// any teardown happens: a concurrent operation on the same name
    /// already observes `NotFound`, and the name is free again at once.
    pub fn stop(&mut self, name: &str) -> (r: Result<ProcessEntry, ProcError>)
        requires
            old(self).wf(),
        ensures
            final(self).wf(),
            match r {
                Err(e) => {
                    &&& final(self)@ == old(self)@
                    &&& !has_name(old(self)@, name@)
                    &&& e matches ProcError::NotFound { name: missing } && missing@ == name@
                },
                Ok(entry) => ({
                    let i = index_of_name(old(self)@, name@);
                    &&& has_name(old(self)@, name@)
                    &&& entry == old(self)@[i]
                    &&& entry.name@ == name@
                    &&& final(self)@ == old(self)@.remove(i)
                    &&& !has_name(final(self)@, name@)
                }),
            },
    {
        match self.find_index(name) {
            None => Err(ProcError::NotFound { name: name.to_owned() }),
            Some(i) => {
                proof {
                    lemma_index_of_name_unique(self.entries@, name@, i as int);
                    lemma_remove_frees_name(self.entries@, name@, i as int);
                }
                let e = self.entries.remove(i);
                Ok(e)
            },
        }
    }

    /// Empties the registry and hands every entry back for teardown, in
    /// registry order. The mapping is cleared unconditionally, before any
    /// kill or wait is attempted, so no entry can be leaked by a failing
    /// teardown.
    pub fn stop_all(&mut self) -> (r: Vec<ProcessEntry>)
        requires
            old(self).wf(),
        ensures
            final(self).wf(),
            final(self)@.len() == 0,
            r@ == old(self)@,
    {
        let mut drained: Vec<ProcessEntry> = Vec::new();
        core::mem::swap(&mut self.entries, &mut drained);
        drained
    }

    /// The names currently registered, in registry order.
    pub fn list_processes(&self) -> (r: Vec<String>)
        ensures
            r@.len() == self@.len(),
            forall|i: int| 0 <= i < self@.len() ==> r@[i] == self@[i].name,
    {
        let mut out: Vec<String> = Vec::new();
        let mut i: usize = 0;
        while i < self.entries.len()
            invariant
                i <= self.entries.len(),
                out@.len() == i,
                forall|k: int| 0 <= k < i ==> out@[k] == self.entries@[k].name,
            decreases self.entries.len() - i,
        {
            out.push(self.entries[i].name.clone());
            i += 1;
        }
        out
    }

    /// Whether a process is registered under `name`.
    pub fn is_running(&self, name: &str) -> (r: bool)
        ensures
            r == has_name(self@, name@),
    {
        match self.find_index(name) {
            Some(_) => true,
            None => false,
        }
    }

    /// The index of the entry named `name`, scanned in registry order.
    fn find_index(&self, name: &str) -> (r: Option<usize>)
        ensures
            match r {
                Some(i) => i < self@.len() && self@[i as int].name@ == name@,
                None => !has_name(self@, name@),
            },
    {
        let mut i: usize = 0;
        while i < self.entries.len()
            invariant
                i <= self.entries.len(),
                forall|k: int| 0 <= k < i ==> self.entries@[k].name@ != name@,
            decreases self.entries.len() - i,
        {
            if str_eq(self.entries[i].name.as_str(), name) {
                return Some(i);
            }
            i += 1;
        }
        None
    }

    /// Replacing one entry by another that keeps its name preserves
    /// distinctness of names.
    proof fn lemma_update_keeps_distinct(pre: Seq<ProcessEntry>, post: Seq<ProcessEntry>, i: int)
        requires
            distinct_names(pre),
            post.len() == pre.len(),
            0 <= i < pre.len(),
            forall|k: int| 0 <= k < pre.len() && k != i ==> post[k] == pre[k],
            post[i].name@ == pre[i].name@,
        ensures
            distinct_names(post),
    {
        assert forall|p: int, q: int| 0 <= p < q < post.len() implies post[p].name@
            != post[q].name@ by {
            assert(post[p].name@ == pre[p].name@);
            assert(post[q].name@ == pre[q].name@);
        }
    }
}

/// Removing the only entry that carries a name leaves a registry without
/// that name, still well formed: the name is immediately reusable, and any
/// later lookup of it answers `NotFound`.
pub proof fn lemma_remove_frees_name(entries: Seq<ProcessEntry>, n: Seq<char>, i: int)
    requires
        distinct_names(entries),
        0 <= i < entries.len(),
        entries[i].name@ == n,
    ensures
        !has_name(entries.remove(i), n),
        distinct_names(entries.remove(i)),
{
    let rest = entries.remove(i);
    assert forall|k: int| 0 <= k < rest.len() implies rest[k].name@ != n by {
        if k < i {
            assert(rest[k] == entries[k]);
        } else {
            assert(rest[k] == entries[k + 1]);
        }
    }
    assert forall|p: int, q: int| 0 <= p < q < rest.len() implies rest[p].name@
        != rest[q].name@ by {
        if q < i {
        } else if p < i {
            assert(rest[q] == entries[q + 1]);
        } else {
            assert(rest[p] == entries[p + 1]);
            assert(rest[q] == entries[q + 1]);
        }
    }
}

/// Adds under two different names do not disturb each other: after the
/// first succeeds, the second name is still free; after both, both stand
/// registered and the registry is still well formed.
pub proof fn lemma_add_distinct_names_independent(
    entries: Seq<ProcessEntry>,
    e1: ProcessEntry,
    e2: ProcessEntry,
)
    requires
        distinct_names(entries),
        !has_name(entries, e1.name@),
        !has_name(entries, e2.name@),
        e1.name@ != e2.name@,
    ensures
        !has_name(entries.push(e1), e2.name@),
        distinct_names(entries.push(e1)),
        distinct_names(entries.push(e1).push(e2)),
        has_name(entries.push(e1).push(e2), e1.name@),
        has_name(entries.push(e1).push(e2), e2.name@),
{
    let one = entries.push(e1);
    let both = one.push(e2);
    assert forall|k: int| 0 <= k < one.len() implies one[k].name@ != e2.name@ by {
        if k < entries.len() {
            assert(one[k] == entries[k]);
        }
    }
    assert forall|p: int, q: int| 0 <= p < q < one.len() implies one[p].name@ != one[q].name@ by {
        if q < entries.len() {
        } else {
            assert(one[q] == e1);
            assert(one[p] == entries[p]);
        }
    }
    assert forall|p: int, q: int| 0 <= p < q < both.len() implies both[p].name@
        != both[q].name@ by {
        if q < one.len() {
            assert(both[p] == one[p]);
            assert(both[q] == one[q]);
        } else {
            assert(both[q] == e2);
            assert(both[p] == one[p]);
        }
    }
    assert(both[entries.len() as int] == e1);
    assert(both[one.len() as int] == e2);
}

/// Of two adds under one and the same name, exactly one succeeds: as soon
/// as an entry holds the name, the registry refuses it (`AlreadyExists`).
pub proof fn lemma_add_same_name_exclusive(entries: Seq<ProcessEntry>, e: ProcessEntry)
    requires
        !has_name(entries, e.name@),
    ensures
        has_name(entries.push(e), e.name@),
{
    assert(entries.push(e)[entries.len() as int] == e);
}

/// Character-by-character string equality.
fn str_eq(a: &str, b: &str) -> (r: bool)
    ensures
        r == (a@ == b@),
{
    let n = a.unicode_len();
    let m = b.unicode_len();
    if n != m {
        return false;
    }
    let mut i: usize = 0;
    while i < n
        invariant
            i <= n,
            n == a@.len(),
            n == b@.len(),
            forall|k: int| 0 <= k < i ==> a@[k] == b@[k],
        decreases n - i,
    {
        if a.get_char(i) != b.get_char(i) {
            return false;
        }
        i += 1;
    }
    proof {
        assert(a@ =~= b@);
    }
    true
}

} // verus!
