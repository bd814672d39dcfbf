use vstd::prelude::*;

use crate::errors::ProcError;

verus! {

use vstd::pervasive::arbitrary;

/// What the embedding program observed while killing and reaping one
/// process during bulk teardown: the process's registry name, and the
/// failure text of the kill or of the wait, where one failed.
pub struct TeardownOutcome {
    pub name: String,
    pub kill_error: Option<String>,
    pub wait_error: Option<String>,
}

/// One recorded teardown failure: which process, and what went wrong.
pub struct StopFailure {
    pub name: String,
    pub error: ProcError,
}

/// Whether a teardown outcome records any failure.
pub open spec fn outcome_failed(o: TeardownOutcome) -> bool {
    o.kill_error is Some || o.wait_error is Some
}

/// The failure recorded for a failed outcome: a failed kill wins over a
/// failed wait, as the kill is attempted first.
pub open spec fn failure_of(o: TeardownOutcome) -> StopFailure {
    match o.kill_error {
        Some(d) => StopFailure { name: o.name, error: ProcError::KillFailed { detail: d } },
        None => match o.wait_error {
            Some(d) => StopFailure { name: o.name, error: ProcError::WaitFailed { detail: d } },
            None => arbitrary(),
        },
    }
}

/// The failures of a whole teardown, one per failed outcome, in teardown
/// order; outcomes without failure contribute nothing.
pub open spec fn failures_of(os: Seq<TeardownOutcome>) -> Seq<StopFailure>
    decreases os.len(),
{
    if os.len() == 0 {
        Seq::empty()
    } else if outcome_failed(os[0]) {
        seq![failure_of(os[0])] + failures_of(os.drop_first())
    } else {
        failures_of(os.drop_first())
    }
}

/// Classifies the teardown of one stopped process: a failed kill is
/// reported as `KillFailed` without considering the wait, a failed wait
/// after a successful kill as `WaitFailed`, and only a teardown where both
/// succeeded is a success.
pub fn finish_stop(kill_error: Option<String>, wait_error: Option<String>) -> (r: Result<
    (),
    ProcError,
>)
    ensures
        match r {
            Ok(()) => kill_error is None && wait_error is None,
            Err(e) => match e {
                ProcError::KillFailed { detail } => kill_error == Some(detail),
                ProcError::WaitFailed { detail } => kill_error is None && wait_error == Some(
                    detail,
                ),
                _ => false,
            },
        },
{
    match kill_error {
        Some(d) => Err(ProcError::KillFailed { detail: d }),
        None => match wait_error {
            Some(d) => Err(ProcError::WaitFailed { detail: d }),
            None => Ok(()),
        },
    }
}

/// Collects the failures of a bulk teardown, one per failed outcome, in
/// order; outcomes whose kill and wait both succeeded are dropped.
pub fn collect_stop_failures(outcomes: Vec<TeardownOutcome>) -> (r: Vec<StopFailure>)
    ensures
        r@ == failures_of(outcomes@),
{
    let ghost orig = outcomes@;
    let mut rem = outcomes;
    let mut acc: Vec<StopFailure> = Vec::new();
    while rem.len() > 0
        invariant
            acc@ + failures_of(rem@) == failures_of(orig),
        decreases rem.len(),
    {
        let ghost pre = rem@;
        let o = rem.remove(0);
        proof {
            assert(rem@ =~= pre.drop_first());
        }
        let TeardownOutcome { name, kill_error, wait_error } = o;
        match kill_error {
            Some(d) => {
                acc.push(StopFailure { name, error: ProcError::KillFailed { detail: d } });
                proof {
                    assert(acc@ + failures_of(rem@) =~= failures_of(orig));
                }
            },
            None => {
                match wait_error {
                    Some(d) => {
                        acc.push(
                            StopFailure { name, error: ProcError::WaitFailed { detail: d } },
                        );
                        proof {
                            assert(acc@ + failures_of(rem@) =~= failures_of(orig));
                        }
                    },
                    None => {
                    },
                }
            },
        }
    }
    proof {
        assert(acc@ + failures_of(rem@) =~= acc@);
    }
    acc
}

/// A teardown in which every kill and every wait succeeded reports no
/// failure at all.
pub proof fn lemma_all_clean_no_failures(os: Seq<TeardownOutcome>)
    requires
        forall|i: int| 0 <= i < os.len() ==> !outcome_failed(os[i]),
    ensures
        failures_of(os) == Seq::<StopFailure>::empty(),
    decreases os.len(),
{
    if os.len() > 0 {
        assert(!outcome_failed(os[0]));
        assert forall|i: int| 0 <= i < os.drop_first().len() implies !outcome_failed(
            os.drop_first()[i],
        ) by {
            assert(os.drop_first()[i] == os[i + 1]);
        }
        lemma_all_clean_no_failures(os.drop_first());
    }
}

/// A teardown in which exactly one outcome failed reports exactly that one
/// failure, under that outcome's name: every other entry is torn down
/// without leaving a trace in the aggregated error.
pub proof fn lemma_single_failure_reported(os: Seq<TeardownOutcome>, i: int)
    requires
        0 <= i < os.len(),
        outcome_failed(os[i]),
        forall|k: int| 0 <= k < os.len() && k != i ==> !outcome_failed(os[k]),
    ensures
        failures_of(os) == seq![failure_of(os[i])],
    decreases os.len(),
{
    if i == 0 {
        assert forall|k: int| 0 <= k < os.drop_first().len() implies !outcome_failed(
            os.drop_first()[k],
        ) by {
            assert(os.drop_first()[k] == os[k + 1]);
        }
        lemma_all_clean_no_failures(os.drop_first());
        assert(failures_of(os) =~= seq![failure_of(os[0])]);
    } else {
        assert(!outcome_failed(os[0]));
        assert forall|k: int| 0 <= k < os.drop_first().len() && k != i - 1 implies !outcome_failed(
            os.drop_first()[k],
        ) by {
            assert(os.drop_first()[k] == os[k + 1]);
        }
        assert(os.drop_first()[i - 1] == os[i]);
        lemma_single_failure_reported(os.drop_first(), i - 1);
    }
}

impl StopFailure {
    /// The message recorded for this failure in the aggregated teardown
    /// error: it names the process and carries the kill or wait detail.
    pub open spec fn spec_message(self) -> Seq<char> {
        match self.error {
            ProcError::KillFailed { detail } => {
                "Failed to kill process '"@ + self.name@ + "': "@ + detail@
            },
            ProcError::WaitFailed { detail } => {
                "Failed to wait for process '"@ + self.name@ + "' exit: "@ + detail@
            },
            _ => self.error.spec_message(),
        }
    }

    /// Renders this failure's message.
    pub fn message(&self) -> (m: String)
        ensures
            m@ == self.spec_message(),
    {
        match &self.error {
            ProcError::KillFailed { detail } => {
                let mut m = String::from_str("Failed to kill process '");
                m.append(self.name.as_str());
                m.append("': ");
                m.append(detail.as_str());
                m
            },
            ProcError::WaitFailed { detail } => {
                let mut m = String::from_str("Failed to wait for process '");
                m.append(self.name.as_str());
                m.append("' exit: ");
                m.append(detail.as_str());
                m
            },
            _ => self.error.message(),
        }
    }
}

/// The messages of a teardown's failures joined by single newlines, in
/// order.
pub open spec fn joined_messages(fs: Seq<StopFailure>) -> Seq<char>
    decreases fs.len(),
{
    if fs.len() == 0 {
        Seq::empty()
    } else if fs.len() == 1 {
        fs[0].spec_message()
    } else {
        fs[0].spec_message() + "\n"@ + joined_messages(fs.drop_first())
    }
}

/// Appending one more failure appends its message, behind a newline unless
/// it is the first.
proof fn lemma_joined_push(fs: Seq<StopFailure>, x: StopFailure)
    ensures
        fs.len() == 0 ==> joined_messages(fs.push(x)) == x.spec_message(),
        fs.len() > 0 ==> joined_messages(fs.push(x)) == joined_messages(fs) + "\n"@
            + x.spec_message(),
    decreases fs.len(),
{
    let grown = fs.push(x);
    if fs.len() == 0 {
        assert(grown[0] == x);
    } else if fs.len() == 1 {
        assert(grown.drop_first() =~= seq![x]);
        assert(joined_messages(seq![x]) == x.spec_message());
        assert(grown[0] == fs[0]);
        assert(joined_messages(grown) =~= joined_messages(fs) + "\n"@ + x.spec_message());
    } else {
        assert(grown.drop_first() =~= fs.drop_first().push(x));
        lemma_joined_push(fs.drop_first(), x);
        assert(grown[0] == fs[0]);
        assert(joined_messages(grown) =~= joined_messages(fs) + "\n"@ + x.spec_message());
    }
}

/// The aggregated error of a bulk teardown: nothing when no failure was
/// recorded, otherwise the failures' messages joined by newlines.
pub fn stop_all_error_message(failures: &Vec<StopFailure>) -> (r: Option<String>)
    ensures
        match r {
            None => failures@.len() == 0,
            Some(m) => failures@.len() > 0 && m@ == joined_messages(failures@),
        },
{
    if failures.len() == 0 {
        return None;
    }
    let mut msg = failures[0].message();
    proof {
        assert(failures@.take(1) =~= seq![failures@[0]]);
    }
    let mut i: usize = 1;
    while i < failures.len()
        invariant
            1 <= i <= failures@.len(),
            msg@ == joined_messages(failures@.take(i as int)),
        decreases failures@.len() - i,
    {
        msg.append("\n");
        let part = failures[i].message();
        msg.append(part.as_str());
        proof {
            lemma_joined_push(failures@.take(i as int), failures@[i as int]);
            assert(failures@.take(i + 1) =~= failures@.take(i as int).push(failures@[i as int]));
        }
        i += 1;
    }
    proof {
        assert(failures@.take(failures@.len() as int) =~= failures@);
    }
    Some(msg)
}

} // verus!
