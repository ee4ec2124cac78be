//! The retry policy for downloading the segments of a track: which round
//! outcome ends the download, which segments are tried again, and how many
//! rounds there are.

use vstd::prelude::*;
use crate::text::string_views;

verus! {

/// The number of rounds in which the segments of a track are requested.
pub const NUM_ATTEMPTS: usize = 2;

/// How the download of one segment ended in a round.
#[derive(Debug, Clone)]
pub enum SegmentOutcome {
    /// Fetched and saved.
    Saved,
    /// Failed; `timeout` tells whether the failure was a timeout.
    Failed { name: String, timeout: bool },
}

/// What a round of downloads leads to.
#[derive(Debug)]
pub enum RoundOutcome {
    /// The download was cancelled.
    Cancelled,
    /// The download failed: the positions, among the round's outcomes, of
    /// the failed segments, in order.
    Failed(Vec<usize>),
    /// The segments still to fetch (none when all were saved).
    Pending(Vec<String>),
}

/// A round outcome as values of the specification.
pub enum RoundVerdict {
    Cancelled,
    Failed(Seq<usize>),
    Pending(Seq<Seq<char>>),
}

/// The positions of the failed outcomes, in order.
pub open spec fn failure_indices(outs: Seq<SegmentOutcome>) -> Seq<usize>
    decreases outs.len(),
{
    if outs.len() == 0 {
        seq![]
    } else {
        let p = failure_indices(outs.drop_last());
        if outs.last() is Failed {
            p.push((outs.len() - 1) as usize)
        } else {
            p
        }
    }
}

/// The names of the failed segments, in order.
pub open spec fn failure_names(outs: Seq<SegmentOutcome>) -> Seq<Seq<char>>
    decreases outs.len(),
{
    if outs.len() == 0 {
        seq![]
    } else {
        let p = failure_names(outs.drop_last());
        match outs.last() {
            SegmentOutcome::Failed { name, .. } => p.push(name@),
            SegmentOutcome::Saved => p,
        }
    }
}

/// An outcome that does not stop the download when timeouts are forgiven:
/// a saved segment or a timeout.
pub open spec fn forgivable(o: SegmentOutcome) -> bool {
    match o {
        SegmentOutcome::Failed { timeout, .. } => timeout,
        SegmentOutcome::Saved => true,
    }
}

/// Every failure among `outs` is a timeout.
pub open spec fn only_timeouts(outs: Seq<SegmentOutcome>) -> bool {
    forall|i: int| 0 <= i < outs.len() ==> forgivable(#[trigger] outs[i])
}

/// Extending a prefix of the outcomes by one keeps `only_timeouts` where
/// the new outcome is forgivable, and breaks it otherwise.
proof fn lemma_only_timeouts_step(outs: Seq<SegmentOutcome>, i: int)
    requires
        0 <= i < outs.len(),
    ensures
        only_timeouts(outs.take(i + 1)) == (only_timeouts(outs.take(i)) && forgivable(outs[i])),
{
    let pre = outs.take(i);
    let post = outs.take(i + 1);
    if only_timeouts(pre) && forgivable(outs[i]) {
        assert forall|j: int| 0 <= j < post.len() implies forgivable(#[trigger] post[j]) by {
            if j < i {
                assert(post[j] == pre[j]);
            }
        }
    } else if !forgivable(outs[i]) {
        assert(!forgivable(post[i]));
    } else {
        let j = choose|j: int| 0 <= j < pre.len() && !forgivable(#[trigger] pre[j]);
        assert(post[j] == pre[j]);
    }
}

/// How a round ends: cancellation first; then, where nothing failed, no
/// segment is left; where only timeouts failed and they are forgiven in this
/// round, the timed-out segments are left for the next round; any other
/// failure ends the download with the failed positions.
pub open spec fn round_verdict(
    outs: Seq<SegmentOutcome>,
    cancelled: bool,
    forgive_timeouts: bool,
) -> RoundVerdict {
    if cancelled {
        RoundVerdict::Cancelled
    } else if failure_indices(outs).len() == 0 {
        RoundVerdict::Pending(seq![])
    } else if only_timeouts(outs) && forgive_timeouts {
        RoundVerdict::Pending(failure_names(outs))
    } else {
        RoundVerdict::Failed(failure_indices(outs))
    }
}

impl RoundOutcome {
    /// The outcome as values of the specification.
    pub open spec fn verdict(&self) -> RoundVerdict {
        match self {
            RoundOutcome::Cancelled => RoundVerdict::Cancelled,
            RoundOutcome::Failed(ix) => RoundVerdict::Failed(ix@),
            RoundOutcome::Pending(names) => RoundVerdict::Pending(string_views(names@)),
        }
    }
}

proof fn lemma_failures_same_length(outs: Seq<SegmentOutcome>)
    ensures
        failure_indices(outs).len() == failure_names(outs).len(),
        failure_indices(outs).len() <= outs.len(),
    decreases outs.len(),
{
    if outs.len() > 0 {
        lemma_failures_same_length(outs.drop_last());
    }
}

/// The positions of the failed outcomes are the failed outcomes, each once
/// and in order, and the failed names are their names.
proof fn lemma_failures_props(outs: Seq<SegmentOutcome>)
    requires
        outs.len() <= usize::MAX,
    ensures
        failure_names(outs).len() == failure_indices(outs).len(),
        forall|k: int|
            0 <= k < failure_indices(outs).len() ==> {
                let i = #[trigger] failure_indices(outs)[k] as int;
                &&& 0 <= i < outs.len()
                &&& outs[i] matches SegmentOutcome::Failed { name, .. } && name@ == failure_names(
                    outs,
                )[k]
            },
        forall|k1: int, k2: int|
            0 <= k1 < k2 < failure_indices(outs).len() ==> failure_indices(outs)[k1]
                < failure_indices(outs)[k2],
        forall|i: int|
            0 <= i < outs.len() && #[trigger] outs[i] is Failed ==> failure_indices(outs).contains(
                i as usize,
            ),
    decreases outs.len(),
{
    if outs.len() > 0 {
        let p = outs.drop_last();
        lemma_failures_props(p);
        let n = outs.len() - 1;
        assert forall|i: int| 0 <= i < outs.len() && #[trigger] outs[i] is Failed implies failure_indices(
            outs,
        ).contains(i as usize) by {
            if i < n {
                assert(p[i] == outs[i]);
                let k = choose|k: int| 0 <= k < failure_indices(p).len() && failure_indices(p)[k] == i as usize;
                assert(failure_indices(outs)[k] == i as usize);
            } else {
                assert(failure_indices(outs).last() == i as usize);
            }
        }
        assert forall|k: int| 0 <= k < failure_indices(outs).len() implies {
            let i = #[trigger] failure_indices(outs)[k] as int;
            &&& 0 <= i < outs.len()
            &&& outs[i] matches SegmentOutcome::Failed { name, .. } && name@ == failure_names(outs)[k]
        } by {
            match outs.last() {
                SegmentOutcome::Failed { name, .. } => {
                    assert(failure_indices(outs) == failure_indices(p).push(n as usize));
                    assert(failure_names(outs) == failure_names(p).push(name@));
                },
                SegmentOutcome::Saved => {
                    assert(failure_indices(outs) == failure_indices(p));
                    assert(failure_names(outs) == failure_names(p));
                },
            }
            if k < failure_indices(p).len() {
                let i = failure_indices(p)[k] as int;
                assert(p[i] == outs[i]);
            }
        }
        assert forall|k1: int, k2: int|
            0 <= k1 < k2 < failure_indices(outs).len() implies failure_indices(outs)[k1]
            < failure_indices(outs)[k2] by {
            let q = failure_indices(p);
            assert(failure_indices(outs)[k1] == q[k1]);
            if k2 < q.len() {
                assert(failure_indices(outs)[k2] == q[k2]);
            } else {
                assert(q[k1] < p.len());
                assert(failure_indices(outs)[k2] == n as usize);
            }
        }
    }
}

/// Law: how a round ends, in terms of its outcomes. A cancelled round ends
/// cancelled, whatever its outcomes; a round that is not cancelled never
/// does. A failed round names exactly the failed positions, in order, and
/// fails only where a failure is not a timeout or timeouts are not forgiven.
/// A round that goes on leaves pending exactly the names of the failed
/// segments, in order, and leaves some only where every failure is a timeout
/// and timeouts are forgiven; a round in which every segment was saved
/// leaves nothing pending.
pub proof fn lemma_round_outcome(outs: Seq<SegmentOutcome>, cancelled: bool, forgive_timeouts: bool)
    requires
        outs.len() <= usize::MAX,
    ensures
        cancelled ==> round_verdict(outs, cancelled, forgive_timeouts) is Cancelled,
        !cancelled ==> !(round_verdict(outs, cancelled, forgive_timeouts) is Cancelled),
        round_verdict(outs, cancelled, forgive_timeouts) matches RoundVerdict::Failed(ix) ==> {
            &&& ix.len() > 0
            &&& forall|k: int| 0 <= k < ix.len() ==> #[trigger] ix[k] < outs.len() && outs[ix[k] as int] is Failed
            &&& forall|k1: int, k2: int| 0 <= k1 < k2 < ix.len() ==> ix[k1] < ix[k2]
            &&& forall|i: int| 0 <= i < outs.len() && #[trigger] outs[i] is Failed ==> ix.contains(i as usize)
            &&& (!forgive_timeouts || exists|i: int| 0 <= i < outs.len() && !forgivable(#[trigger] outs[i]))
        },
        round_verdict(outs, cancelled, forgive_timeouts) matches RoundVerdict::Pending(left) ==> {
            &&& left.len() == failure_indices(outs).len()
            &&& forall|k: int|
                0 <= k < left.len() ==> (outs[#[trigger] failure_indices(outs)[k] as int] matches SegmentOutcome::Failed { name, .. } && name@ == left[k])
            &&& left.len() > 0 ==> forgive_timeouts && forall|i: int| 0 <= i < outs.len() ==> forgivable(#[trigger] outs[i])
        },
        !cancelled && (forall|i: int| 0 <= i < outs.len() ==> #[trigger] outs[i] is Saved) ==> round_verdict(
            outs,
            cancelled,
            forgive_timeouts,
        ) == RoundVerdict::Pending(seq![]),
{
    lemma_failures_props(outs);
    if !cancelled && (forall|i: int| 0 <= i < outs.len() ==> #[trigger] outs[i] is Saved) {
        if failure_indices(outs).len() > 0 {
            let i = failure_indices(outs)[0] as int;
            assert(outs[i] is Failed);
        }
    }
    if round_verdict(outs, cancelled, forgive_timeouts) is Failed && forgive_timeouts {
        assert(!only_timeouts(outs));
    }
    if let RoundVerdict::Pending(left) = round_verdict(outs, cancelled, forgive_timeouts) {
        if left.len() > 0 {
            assert(only_timeouts(outs));
        }
    }
}

/// Classifies the outcomes of a round of downloads.
pub fn classify_round(outs: &Vec<SegmentOutcome>, cancelled: bool, forgive_timeouts: bool) -> (r:
    RoundOutcome)
    ensures
        r.verdict() == round_verdict(outs@, cancelled, forgive_timeouts),
        cancelled <==> r is Cancelled,
        r matches RoundOutcome::Failed(ix) ==> ix@.len() > 0 && (forall|k: int|
            0 <= k < ix@.len() ==> #[trigger] ix@[k] < outs@.len() && outs@[ix@[k] as int] is Failed)
            && (forall|i: int| 0 <= i < outs@.len() && #[trigger] outs@[i] is Failed ==> ix@.contains(i as usize)),
        r matches RoundOutcome::Pending(left) ==> (left@.len() > 0 ==> forgive_timeouts && forall|i: int|
            0 <= i < outs@.len() ==> forgivable(#[trigger] outs@[i])),
        !cancelled && (forall|i: int| 0 <= i < outs@.len() ==> #[trigger] outs@[i] is Saved) ==> (r matches RoundOutcome::Pending(left) && left@.len() == 0),
{
    proof {
        lemma_round_outcome(outs@, cancelled, forgive_timeouts);
    }
    if cancelled {
        return RoundOutcome::Cancelled;
    }
    let mut indices: Vec<usize> = Vec::new();
    let mut names: Vec<String> = Vec::new();
    let mut all_timeouts = true;
    for i in 0..outs.len()
        invariant
            indices@ == failure_indices(outs@.take(i as int)),
            string_views(names@) == failure_names(outs@.take(i as int)),
            all_timeouts == only_timeouts(outs@.take(i as int)),
    {
        let ghost pre = outs@.take(i as int);
        let ghost post = outs@.take(i + 1);
        assert(post.drop_last() =~= pre);
        proof {
            lemma_only_timeouts_step(outs@, i as int);
        }
        match &outs[i] {
            SegmentOutcome::Failed { name, timeout } => {
                indices.push(i);
                let ghost old_names = names@;
                names.push(name.clone());
                assert(string_views(names@) =~= string_views(old_names).push(name@));
                if !*timeout {
                    all_timeouts = false;
                }
            },
            SegmentOutcome::Saved => {},
        }
    }
    assert(outs@.take(outs@.len() as int) =~= outs@);
    if indices.len() == 0 {
        proof {
            lemma_failures_same_length(outs@);
        }
        let empty: Vec<String> = Vec::new();
        assert(string_views(empty@) =~= Seq::<Seq<char>>::empty());
        RoundOutcome::Pending(empty)
    } else if all_timeouts && forgive_timeouts {
        RoundOutcome::Pending(names)
    } else {
        RoundOutcome::Failed(indices)
    }
}

/// The segments of a track that are still to fetch, and the number of
/// rounds left to fetch them in.
#[derive(Debug)]
pub struct RetrySchedule {
    pub pending: Vec<String>,
    pub attempts_left: usize,
}

/// Whether another round is due: segments are pending and rounds are left.
pub open spec fn has_work_spec(pending_len: nat, attempts_left: nat) -> bool {
    pending_len > 0 && attempts_left > 0
}

impl RetrySchedule {
    /// All of `segs` pending, with every round still available.
    pub fn new(segs: Vec<String>) -> (s: RetrySchedule)
        ensures
            s.pending == segs,
            s.attempts_left == NUM_ATTEMPTS,
    {
        RetrySchedule { pending: segs, attempts_left: NUM_ATTEMPTS }
    }

    /// Whether another round is due.
    pub fn has_work(&self) -> (b: bool)
        ensures
            b == has_work_spec(self.pending@.len(), self.attempts_left as nat),
    {
        self.pending.len() > 0 && self.attempts_left > 0
    }

    /// Whether timeouts are forgiven in the coming round: in every round but
    /// the last.
    pub fn forgive_timeouts(&self) -> (b: bool)
        ensures
            b == (self.attempts_left > 1),
    {
        self.attempts_left > 1
    }

    /// Whether the coming round repeats an earlier one.
    pub fn is_retry(&self) -> (b: bool)
        ensures
            b == (self.attempts_left < NUM_ATTEMPTS),
    {
        self.attempts_left < NUM_ATTEMPTS
    }

    /// Hands out the pending segments for the coming round.
    pub fn take_pending(&mut self) -> (segs: Vec<String>)
        ensures
            segs == old(self).pending,
            final(self).pending@.len() == 0,
            final(self).attempts_left == old(self).attempts_left,
    {
        let mut segs: Vec<String> = Vec::new();
        std::mem::swap(&mut segs, &mut self.pending);
        segs
    }

    /// Records a finished round, with the segments it left pending.
    pub fn record_round(&mut self, left: Vec<String>)
        requires
            old(self).attempts_left > 0,
        ensures
            final(self).pending == left,
            final(self).attempts_left == old(self).attempts_left - 1,
    {
        self.pending = left;
        self.attempts_left = self.attempts_left - 1;
    }
}

/// What follows a round of downloads.
#[derive(Debug)]
pub enum DownloadStep {
    /// Another round is due.
    Continue,
    /// The download is over: nothing is left to fetch, or no round is left.
    Done,
    /// The download was cancelled.
    Cancelled,
    /// The download failed at these positions among the round's outcomes.
    Failed(Vec<usize>),
}

impl RetrySchedule {
    /// Records how a round ended and says what follows: a cancelled or
    /// failed round ends the download as it is; a round that leaves segments
    /// pending uses up one round and continues while work is due.
    pub fn after_round(&mut self, outcome: RoundOutcome) -> (step: DownloadStep)
        requires
            old(self).attempts_left > 0,
        ensures
            outcome is Cancelled ==> step is Cancelled && *final(self) == *old(self),
            outcome matches RoundOutcome::Failed(ix) ==> (step matches DownloadStep::Failed(jx)
                && jx == ix && *final(self) == *old(self)),
            outcome matches RoundOutcome::Pending(left) ==> final(self).pending == left
                && final(self).attempts_left == old(self).attempts_left - 1 && (step is Continue
                <==> has_work_spec(left@.len(), (old(self).attempts_left - 1) as nat)) && (
            step is Continue || step is Done),
    {
        match outcome {
            RoundOutcome::Cancelled => DownloadStep::Cancelled,
            RoundOutcome::Failed(ix) => DownloadStep::Failed(ix),
            RoundOutcome::Pending(left) => {
                self.record_round(left);
                if self.has_work() {
                    DownloadStep::Continue
                } else {
                    DownloadStep::Done
                }
            },
        }
    }
}

/// How a whole download ends, as values of the specification.
pub enum RunEnd {
    /// No further round was due; these segments were still pending.
    Finished(Seq<Seq<char>>),
    Cancelled,
    Failed(Seq<usize>),
    /// The rounds given ran out while work was still due.
    Unfinished,
}

/// The end of a download with `pending` segments and `attempts` rounds left,
/// whose rounds end with the given outcomes and cancellation flags, each
/// round forgiving timeouts while more than one round is left.
pub open spec fn run_rounds(
    pending: Seq<Seq<char>>,
    attempts: nat,
    rounds: Seq<(Seq<SegmentOutcome>, bool)>,
) -> RunEnd
    decreases rounds.len(),
{
    if !has_work_spec(pending.len(), attempts) {
        RunEnd::Finished(pending)
    } else if rounds.len() == 0 {
        RunEnd::Unfinished
    } else {
        match round_verdict(rounds[0].0, rounds[0].1, attempts > 1) {
            RoundVerdict::Cancelled => RunEnd::Cancelled,
            RoundVerdict::Failed(ix) => RunEnd::Failed(ix),
            RoundVerdict::Pending(left) => run_rounds(left, (attempts - 1) as nat, rounds.drop_first()),
        }
    }
}

/// Law: a download that starts with at least one round ends, after at most
/// that many rounds, either cancelled, failed, or with nothing pending; it
/// never stops with segments left unfetched.
pub proof fn lemma_download_ends_empty_or_failed(
    pending: Seq<Seq<char>>,
    attempts: nat,
    rounds: Seq<(Seq<SegmentOutcome>, bool)>,
)
    requires
        attempts >= 1 || pending.len() == 0,
    ensures
        run_rounds(pending, attempts, rounds) matches RunEnd::Finished(left) ==> left.len() == 0,
        rounds.len() >= attempts ==> !(run_rounds(pending, attempts, rounds) is Unfinished),
    decreases rounds.len(),
{
    if has_work_spec(pending.len(), attempts) && rounds.len() > 0 {
        if let RoundVerdict::Pending(left) = round_verdict(rounds[0].0, rounds[0].1, attempts > 1) {
            if attempts == 1 {
                lemma_last_round_leaves_nothing(attempts, rounds[0].0, rounds[0].1);
            }
            lemma_download_ends_empty_or_failed(left, (attempts - 1) as nat, rounds.drop_first());
        }
    }
}

/// Law: timeouts are not forgiven in the last round, so a last round that
/// ends without failure leaves no segment pending; hence when the rounds are
/// used up without a failure, every segment has been fetched.
pub proof fn lemma_last_round_leaves_nothing(
    attempts_left: nat,
    outs: Seq<SegmentOutcome>,
    cancelled: bool,
)
    requires
        attempts_left == 1,
    ensures
        round_verdict(outs, cancelled, attempts_left > 1) matches RoundVerdict::Pending(left)
            ==> left.len() == 0,
{
}

/// Law: the rounds end with nothing pending unless a round is cancelled or
/// fails: after a round with `attempts_left` rounds remaining (`> 0`), that
/// leaves `left` pending, no further round is due only if `left` is empty.
pub proof fn lemma_rounds_end_empty(
    attempts_left: nat,
    outs: Seq<SegmentOutcome>,
    cancelled: bool,
    left: Seq<Seq<char>>,
)
    requires
        attempts_left > 0,
        round_verdict(outs, cancelled, attempts_left > 1) == RoundVerdict::Pending(left),
        !has_work_spec(left.len(), (attempts_left - 1) as nat),
    ensures
        left.len() == 0,
{
}

} // verus!
