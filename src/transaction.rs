//! The decisions of a broker transaction: open it, queue each command,
//! then commit, or discard as soon as a command fails. The caller sends
//! the action that `next_action` names and reports whether the broker
//! accepted it.
use vstd::prelude::*;
use crate::redis_store::RedisCommand;

verus! {

/// How a transaction ended.
#[derive(Debug, Clone, Copy, PartialEq, Eq, Structural)]
pub enum TransactionOutcome {
    /// Every command was accepted and the transaction was executed.
    Committed,
    /// The command at this index failed; the transaction was discarded.
    CommandFailed(usize),
    /// The transaction could not be opened; nothing was sent.
    BeginFailed,
    /// The final execution failed.
    CommitFailed,
}

/// What to send to the broker next.
#[derive(Debug, Clone, Copy, PartialEq, Eq, Structural)]
pub enum TransactionAction {
    /// `MULTI`
    Multi,
    /// The command at this index.
    Command(usize),
    /// `EXEC`
    Exec,
    /// `DISCARD`
    Discard,
    /// Nothing more: the transaction is over.
    Finished(TransactionOutcome),
}

#[derive(Debug, Clone, Copy, PartialEq, Eq, Structural)]
pub enum TransactionPhase {
    Opening,
    Queueing(usize),
    Committing,
    Discarding(usize),
    Done(TransactionOutcome),
}

pub open spec fn action_of(phase: TransactionPhase) -> TransactionAction {
    match phase {
        TransactionPhase::Opening => TransactionAction::Multi,
        TransactionPhase::Queueing(i) => TransactionAction::Command(i),
        TransactionPhase::Committing => TransactionAction::Exec,
        TransactionPhase::Discarding(_) => TransactionAction::Discard,
        TransactionPhase::Done(o) => TransactionAction::Finished(o),
    }
}

/// The phase after the broker answered the current action (`ok` when it
/// accepted it), for a transaction of `len` commands. A failed command is
/// the outcome whatever the answer to the `DISCARD`: that answer never
/// hides the first cause.
pub open spec fn next_phase(phase: TransactionPhase, ok: bool, len: nat) -> TransactionPhase {
    match phase {
        TransactionPhase::Opening => if !ok {
            TransactionPhase::Done(TransactionOutcome::BeginFailed)
        } else if len == 0 {
            TransactionPhase::Committing
        } else {
            TransactionPhase::Queueing(0)
        },
        TransactionPhase::Queueing(i) => if !ok {
            TransactionPhase::Discarding(i)
        } else if i + 1 == len {
            TransactionPhase::Committing
        } else {
            TransactionPhase::Queueing((i + 1) as usize)
        },
        TransactionPhase::Committing => if ok {
            TransactionPhase::Done(TransactionOutcome::Committed)
        } else {
            TransactionPhase::Done(TransactionOutcome::CommitFailed)
        },
        TransactionPhase::Discarding(i) => TransactionPhase::Done(
            TransactionOutcome::CommandFailed(i),
        ),
        TransactionPhase::Done(o) => TransactionPhase::Done(o),
    }
}

/// The phase after a run of answers, one per action sent.
pub open spec fn run_phases(phase: TransactionPhase, replies: Seq<bool>, len: nat) -> TransactionPhase
    decreases replies.len(),
{
    if replies.len() == 0 {
        phase
    } else {
        run_phases(next_phase(phase, replies[0], len), replies.drop_first(), len)
    }
}

/// A transaction in progress over a group of commands.
#[derive(Debug, Clone, PartialEq, Eq)]
pub struct Transaction {
    pub commands: Vec<RedisCommand>,
    pub phase: TransactionPhase,
}

impl Transaction {
    /// The phase names a command of the group.
    pub open spec fn wf(&self) -> bool {
        match self.phase {
            TransactionPhase::Queueing(i) => i < self.commands@.len(),
            TransactionPhase::Discarding(i) => i < self.commands@.len(),
            _ => true,
        }
    }

    /// A transaction that is about to be opened.
    pub fn new(commands: Vec<RedisCommand>) -> (r: Transaction)
        ensures
            r.commands@ == commands@,
            r.phase == TransactionPhase::Opening,
            r.wf(),
    {
        Transaction { commands, phase: TransactionPhase::Opening }
    }

    /// What to send next.
    pub fn next_action(&self) -> (r: TransactionAction)
        ensures
            r == action_of(self.phase),
    {
        match self.phase {
            TransactionPhase::Opening => TransactionAction::Multi,
            TransactionPhase::Queueing(i) => TransactionAction::Command(i),
            TransactionPhase::Committing => TransactionAction::Exec,
            TransactionPhase::Discarding(_) => TransactionAction::Discard,
            TransactionPhase::Done(o) => TransactionAction::Finished(o),
        }
    }

    /// Records the broker's answer to the action last sent.
    pub fn on_reply(&mut self, ok: bool)
        requires
            old(self).wf(),
        ensures
            final(self).wf(),
            final(self).commands@ == old(self).commands@,
            final(self).phase == next_phase(old(self).phase, ok, old(self).commands@.len()),
    {
        let len = self.commands.len();
        self.phase = match self.phase {
            TransactionPhase::Opening => if !ok {
                TransactionPhase::Done(TransactionOutcome::BeginFailed)
            } else if len == 0 {
                TransactionPhase::Committing
            } else {
                TransactionPhase::Queueing(0)
            },
            TransactionPhase::Queueing(i) => if !ok {
                TransactionPhase::Discarding(i)
            } else if i + 1 == len {
                TransactionPhase::Committing
            } else {
                TransactionPhase::Queueing(i + 1)
            },
            TransactionPhase::Committing => if ok {
                TransactionPhase::Done(TransactionOutcome::Committed)
            } else {
                TransactionPhase::Done(TransactionOutcome::CommitFailed)
            },
            TransactionPhase::Discarding(i) => TransactionPhase::Done(
                TransactionOutcome::CommandFailed(i),
            ),
            TransactionPhase::Done(o) => TransactionPhase::Done(o),
        };
    }

    /// The outcome, once the transaction is over.
    pub fn outcome(&self) -> (r: Option<TransactionOutcome>)
        ensures
            r == match self.phase {
                TransactionPhase::Done(o) => Some(o),
                _ => None::<TransactionOutcome>,
            },
    {
        match self.phase {
            TransactionPhase::Done(o) => Some(o),
            _ => None,
        }
    }
}

/// `n` accepted answers.
pub open spec fn all_true(n: nat) -> Seq<bool> {
    Seq::new(n, |k: int| true)
}

proof fn lemma_run_one(phase: TransactionPhase, b: bool, len: nat)
    ensures
        run_phases(phase, seq![b], len) == next_phase(phase, b, len),
{
    let n = next_phase(phase, b, len);
    assert(seq![b][0] == b);
    assert(seq![b].drop_first() =~= Seq::<bool>::empty());
    assert(run_phases(n, Seq::<bool>::empty(), len) == n);
}

proof fn lemma_run_append(phase: TransactionPhase, a: Seq<bool>, b: Seq<bool>, len: nat)
    ensures
        run_phases(phase, a + b, len) == run_phases(run_phases(phase, a, len), b, len),
    decreases a.len(),
{
    if a.len() > 0 {
        assert((a + b).drop_first() =~= a.drop_first() + b);
        lemma_run_append(next_phase(phase, a[0], len), a.drop_first(), b, len);
    } else {
        assert(a + b =~= b);
    }
}

proof fn lemma_done_stays(o: TransactionOutcome, replies: Seq<bool>, len: nat)
    ensures
        run_phases(TransactionPhase::Done(o), replies, len) == TransactionPhase::Done(o),
    decreases replies.len(),
{
    if replies.len() > 0 {
        lemma_done_stays(o, replies.drop_first(), len);
    }
}

proof fn lemma_accepted_prefix(i: nat, len: nat)
    requires
        i < len,
        len <= usize::MAX,
    ensures
        run_phases(TransactionPhase::Opening, all_true(i + 1), len) == TransactionPhase::Queueing(
            i as usize,
        ),
    decreases i,
{
    if i == 0 {
        assert(all_true(1) =~= seq![true]);
        lemma_run_one(TransactionPhase::Opening, true, len);
    } else {
        lemma_accepted_prefix((i - 1) as nat, len);
        assert(all_true(i + 1) =~= all_true(i) + seq![true]);
        lemma_run_append(TransactionPhase::Opening, all_true(i), seq![true], len);
        lemma_run_one(TransactionPhase::Queueing((i - 1) as usize), true, len);
    }
}

/// Opening, every command and the execution all accepted: the transaction
/// is committed.
pub proof fn lemma_all_accepted_commits(len: nat)
    requires
        len <= usize::MAX,
    ensures
        run_phases(TransactionPhase::Opening, all_true(len + 2), len) == TransactionPhase::Done(
            TransactionOutcome::Committed,
        ),
{
    assert(all_true(len + 2) =~= all_true(len + 1) + seq![true]);
    lemma_run_append(TransactionPhase::Opening, all_true(len + 1), seq![true], len);
    lemma_run_one(TransactionPhase::Committing, true, len);
    if len == 0 {
        assert(all_true(1) =~= seq![true]);
        lemma_run_one(TransactionPhase::Opening, true, len);
    } else {
        lemma_accepted_prefix((len - 1) as nat, len);
        assert(all_true(len + 1) =~= all_true(len) + seq![true]);
        lemma_run_append(TransactionPhase::Opening, all_true(len), seq![true], len);
        lemma_run_one(TransactionPhase::Queueing((len - 1) as usize), true, len);
    }
}

/// When the command at index `i` is refused after the opening and the
/// commands before it were accepted, the outcome is that failure, whatever
/// the broker answers to the `DISCARD` and afterwards: the transaction is
/// never executed.
pub proof fn lemma_command_failure_discards(len: nat, i: nat, later: Seq<bool>)
    requires
        i < len,
        len <= usize::MAX,
        later.len() >= 1,
    ensures
        run_phases(TransactionPhase::Opening, all_true(i + 1) + seq![false] + later, len)
            == TransactionPhase::Done(TransactionOutcome::CommandFailed(i as usize)),
{
    lemma_accepted_prefix(i, len);
    lemma_run_append(TransactionPhase::Opening, all_true(i + 1) + seq![false], later, len);
    lemma_run_append(TransactionPhase::Opening, all_true(i + 1), seq![false], len);
    lemma_run_one(TransactionPhase::Queueing(i as usize), false, len);
    assert(later =~= seq![later[0]] + later.drop_first());
    lemma_run_append(TransactionPhase::Discarding(i as usize), seq![later[0]], later.drop_first(), len);
    lemma_run_one(TransactionPhase::Discarding(i as usize), later[0], len);
    lemma_done_stays(TransactionOutcome::CommandFailed(i as usize), later.drop_first(), len);
}

} // verus!
