//! The ingestion batching/backpressure controller.
//!
//! The controller consumes input lines one at a time. Blank lines are
//! skipped without being counted. Every other line becomes an append
//! action in the current batch; each thousandth accepted line seals the
//! batch for submission, and at end of input a nonempty remainder is
//! submitted once more. At every hundred-thousandth accepted line the
//! caller samples segment health and pauses for a fixed cooldown when too
//! many segments are still hot.
//!
//! The controller itself never talks to the engine: it hands sealed
//! batches back to its caller, which submits them. Its abstract state is
//! `IngestModel`, and every step is pinned to the pure transition
//! `step_model`, so the batching laws are proved once over the model and
//! hold of any run of the controller.

use vstd::prelude::*;
use vstd::string::StringExecFns;

use crate::text::is_blank;
use crate::text::blank_str;

verus! {

/// A mutation batch is sealed when this many lines have been gathered.
pub const BATCH_SIZE: u64 = 1000;

/// Segment health is sampled at every multiple of this many accepted lines.
pub const HEALTH_CHECK_INTERVAL: u64 = 100000;

/// More hot segments than this trigger the cooldown.
pub const HOT_SEGMENT_LIMIT: usize = 3;

/// How many seconds ingestion pauses when the engine looks overloaded.
pub const COOLDOWN_SECS: u64 = 5;

/// One mutation handed to the engine: an append of one document, with an
/// identifier key (empty means unkeyed) and the document payload.
pub struct Action {
    pub key: String,
    pub payload: String,
}

/// The payloads of a sequence of actions, in order.
pub open spec fn payloads(actions: Seq<Action>) -> Seq<Seq<char>> {
    Seq::new(actions.len(), |i: int| actions[i].payload@)
}

/// The controller's abstract state: the payloads of the batches sealed so
/// far, the lines gathered since the last sealed batch, and how many lines
/// have been accepted.
pub ghost struct IngestModel {
    pub batches: Seq<Seq<Seq<char>>>,
    pub pending: Seq<Seq<char>>,
    pub count: nat,
}

pub open spec fn empty_model() -> IngestModel {
    IngestModel { batches: Seq::empty(), pending: Seq::empty(), count: 0 }
}

/// How one input line changes the abstract state: a blank line changes
/// nothing; any other line joins the pending batch, and each thousandth
/// accepted line seals the pending batch.
pub open spec fn step_model(m: IngestModel, line: Seq<char>) -> IngestModel {
    if is_blank(line) {
        m
    } else {
        let pending = m.pending.push(line);
        if (m.count + 1) % (BATCH_SIZE as nat) == 0 {
            IngestModel { batches: m.batches.push(pending), pending: Seq::empty(), count: m.count + 1 }
        } else {
            IngestModel { batches: m.batches, pending, count: m.count + 1 }
        }
    }
}

/// The abstract state after a whole sequence of input lines.
pub open spec fn run_model(m: IngestModel, lines: Seq<Seq<char>>) -> IngestModel
    decreases lines.len(),
{
    if lines.len() == 0 {
        m
    } else {
        run_model(step_model(m, lines[0]), lines.drop_first())
    }
}

/// End of input: a nonempty remainder is sealed as one final batch.
pub open spec fn finish_model(m: IngestModel) -> IngestModel {
    if m.pending.len() > 0 {
        IngestModel { batches: m.batches.push(m.pending), pending: Seq::empty(), count: m.count }
    } else {
        m
    }
}

/// The non-blank lines of an input, in order.
pub open spec fn accepted(lines: Seq<Seq<char>>) -> Seq<Seq<char>>
    decreases lines.len(),
{
    if lines.len() == 0 {
        Seq::empty()
    } else if is_blank(lines[0]) {
        accepted(lines.drop_first())
    } else {
        seq![lines[0]] + accepted(lines.drop_first())
    }
}

/// What every reachable abstract state satisfies: pending holds the
/// remainder of the count, every sealed batch is full, and nothing blank
/// was ever kept.
pub open spec fn model_inv(m: IngestModel) -> bool {
    &&& m.pending.len() == m.count % (BATCH_SIZE as nat)
    &&& m.count == (BATCH_SIZE as nat) * m.batches.len() + m.pending.len()
    &&& forall|i: int| 0 <= i < m.batches.len() ==> (#[trigger] m.batches[i]).len() == BATCH_SIZE as nat
    &&& forall|i: int, j: int|
        0 <= i < m.batches.len() && 0 <= j < m.batches[i].len() ==> !is_blank(#[trigger] m.batches[i][j])
    &&& forall|j: int| 0 <= j < m.pending.len() ==> !is_blank(#[trigger] m.pending[j])
}

proof fn lemma_step_preserves(m: IngestModel, line: Seq<char>)
    requires
        model_inv(m),
    ensures
        model_inv(step_model(m, line)),
        step_model(m, line).count == m.count + (if is_blank(line) {
            0nat
        } else {
            1nat
        }),
        step_model(m, line).batches.flatten() + step_model(m, line).pending =~= m.batches.flatten()
            + m.pending + (if is_blank(line) {
            Seq::<Seq<char>>::empty()
        } else {
            seq![line]
        }),
{
    broadcast use Seq::group_seq_flatten;

    let s = step_model(m, line);
    if !is_blank(line) {
        let pending = m.pending.push(line);
        assert(forall|j: int| 0 <= j < pending.len() ==> !is_blank(#[trigger] pending[j]));
        if (m.count + 1) % (BATCH_SIZE as nat) == 0 {
            assert(m.pending.len() == (BATCH_SIZE as nat) - 1);
            assert(s.batches.flatten() =~= m.batches.flatten() + pending);
            assert forall|i: int, j: int|
                0 <= i < s.batches.len() && 0 <= j < s.batches[i].len() implies !is_blank(
                #[trigger] s.batches[i][j],
            ) by {
                if i < m.batches.len() {
                    assert(s.batches[i] == m.batches[i]);
                } else {
                    assert(s.batches[i] == pending);
                }
            }
        }
    }
}

proof fn lemma_run_preserves(m: IngestModel, lines: Seq<Seq<char>>)
    requires
        model_inv(m),
    ensures
        model_inv(run_model(m, lines)),
        run_model(m, lines).count == m.count + accepted(lines).len(),
        run_model(m, lines).batches.flatten() + run_model(m, lines).pending =~= m.batches.flatten()
            + m.pending + accepted(lines),
    decreases lines.len(),
{
    if lines.len() > 0 {
        let s = step_model(m, lines[0]);
        lemma_step_preserves(m, lines[0]);
        lemma_run_preserves(s, lines.drop_first());
        let r = run_model(m, lines);
        assert(r == run_model(s, lines.drop_first()));
        assert(r.batches.flatten() + r.pending =~= m.batches.flatten() + m.pending + accepted(
            lines,
        ));
    }
}

/// LAW: over any input, the batching controller accepts exactly the
/// non-blank lines, in order; after the final flush their concatenation
/// over all sealed batches is that same sequence; the number of sealed
/// batches is the accepted count divided by the batch size, rounded up;
/// and every sealed batch is nonempty and at most one batch size long.
pub proof fn lemma_run_partitions(lines: Seq<Seq<char>>)
    ensures
        ({
            let m = finish_model(run_model(empty_model(), lines));
            &&& m.pending.len() == 0
            &&& m.count == accepted(lines).len()
            &&& m.batches.flatten() =~= accepted(lines)
            &&& m.batches.len() == (accepted(lines).len() + (BATCH_SIZE as int) - 1) / (
            BATCH_SIZE as int)
            &&& forall|i: int|
                0 <= i < m.batches.len() ==> 1 <= (#[trigger] m.batches[i]).len() <= (
                BATCH_SIZE as nat)
        }),
{
    broadcast use Seq::group_seq_flatten;

    assert(model_inv(empty_model()));
    lemma_run_preserves(empty_model(), lines);
    let r = run_model(empty_model(), lines);
    let m = finish_model(r);
    assert(empty_model().batches.flatten() =~= Seq::<Seq<char>>::empty());
    assert(r.batches.flatten() + r.pending =~= accepted(lines));
    if r.pending.len() > 0 {
        assert(m.batches.flatten() =~= r.batches.flatten() + r.pending);
    } else {
        assert(r.batches.flatten() + r.pending =~= r.batches.flatten());
    }
}

/// LAW: a blank line never appears in any sealed batch.
pub proof fn lemma_no_blank_submitted(lines: Seq<Seq<char>>)
    ensures
        ({
            let m = finish_model(run_model(empty_model(), lines));
            forall|i: int, j: int|
                0 <= i < m.batches.len() && 0 <= j < m.batches[i].len() ==> !is_blank(
                    #[trigger] m.batches[i][j],
                )
        }),
{
    assert(model_inv(empty_model()));
    lemma_run_preserves(empty_model(), lines);
    let r = run_model(empty_model(), lines);
    let m = finish_model(r);
    if r.pending.len() > 0 {
        assert forall|i: int, j: int|
            0 <= i < m.batches.len() && 0 <= j < m.batches[i].len() implies !is_blank(
            #[trigger] m.batches[i][j],
        ) by {
            if i < r.batches.len() {
                assert(m.batches[i] == r.batches[i]);
            } else {
                assert(m.batches[i] == r.pending);
            }
        }
    }
}

/// What one accepted line asks of the caller.
pub enum IngestStep {
    /// The line was blank: nothing was counted, nothing was stored.
    Skipped,
    /// The line joined the current batch. When `flush` carries a sealed
    /// batch, the caller submits it to the engine in one mutate call.
    /// When `milestone` holds, the accepted-line count just reached a
    /// multiple of `HEALTH_CHECK_INTERVAL`: the caller reports progress
    /// and samples segment health.
    Accepted { flush: Option<Vec<Action>>, milestone: bool },
}

/// The batching controller. Feed it each input line with `offer`, submit
/// every sealed batch it hands back, and call `finish` at end of input.
pub struct Ingestor {
    batch: Vec<Action>,
    total: u64,
    history: Ghost<Seq<Seq<Seq<char>>>>,
}

impl Ingestor {
    /// The abstract state this controller is at.
    pub closed spec fn model(self) -> IngestModel {
        IngestModel {
            batches: self.history@,
            pending: payloads(self.batch@),
            count: self.total as nat,
        }
    }

    /// Every gathered action is unkeyed: the identifier field stays empty.
    pub closed spec fn wf(self) -> bool {
        forall|i: int| 0 <= i < self.batch@.len() ==> (#[trigger] self.batch@[i]).key@ == Seq::<
            char,
        >::empty()
    }

    pub fn new() -> (r: Ingestor)
        ensures
            r.wf(),
            r.model() == empty_model(),
    {
        let r = Ingestor { batch: Vec::new(), total: 0, history: Ghost(Seq::empty()) };
        proof {
            assert(payloads(r.batch@) =~= Seq::<Seq<char>>::empty());
        }
        r
    }

    /// How many lines have been accepted so far.
    pub fn total(&self) -> (n: u64)
        ensures
            n as nat == self.model().count,
    {
        self.total
    }

    /// Consumes one input line. A blank line is skipped and not counted;
    /// any other line is stored as an unkeyed append action, sealing the
    /// batch at every `BATCH_SIZE`th accepted line, and announcing a
    /// milestone at every `HEALTH_CHECK_INTERVAL`th.
    pub fn offer(&mut self, line: &str) -> (step: IngestStep)
        requires
            old(self).wf(),
            old(self).model().count < u64::MAX,
        ensures
            final (self).wf(),
            final (self).model() == step_model(old(self).model(), line@),
            (step is Skipped) <==> is_blank(line@),
            (step is Skipped) ==> *final (self) == *old(self),
            (step matches IngestStep::Accepted { flush, milestone } ==> {
                &&& final (self).model().count == old(self).model().count + 1
                &&& (milestone <==> final (self).model().count % (HEALTH_CHECK_INTERVAL as nat)
                    == 0)
                &&& (match flush {
                    Some(b) => {
                        &&& final (self).model().count % (BATCH_SIZE as nat) == 0
                        &&& payloads(b@) == old(self).model().pending.push(line@)
                        &&& forall|i: int|
                            0 <= i < b@.len() ==> (#[trigger] b@[i]).key@ == Seq::<char>::empty()
                        &&& final (self).model().pending.len() == 0
                    },
                    None => final (self).model().count % (BATCH_SIZE as nat) != 0,
                })
            }),
    {
        if blank_str(line) {
            return IngestStep::Skipped;
        }
        let ghost old_pending = payloads(self.batch@);
        let action = Action { key: String::new(), payload: String::from_str(line) };
        self.batch.push(action);
        self.total = self.total + 1;
        proof {
            assert(payloads(self.batch@) =~= old_pending.push(line@));
        }
        let milestone = self.total % HEALTH_CHECK_INTERVAL == 0;
        if self.total % BATCH_SIZE == 0 {
            let mut flushed: Vec<Action> = Vec::new();
            core::mem::swap(&mut flushed, &mut self.batch);
            let ghost h = self.history@.push(payloads(flushed@));
            self.history = Ghost(h);
            proof {
                assert(payloads(self.batch@) =~= Seq::<Seq<char>>::empty());
            }
            IngestStep::Accepted { flush: Some(flushed), milestone }
        } else {
            IngestStep::Accepted { flush: None, milestone }
        }
    }

    /// End of input: hands back the remainder batch if one is pending.
    /// Afterwards nothing is pending and every accepted line sits in some
    /// sealed batch.
    pub fn finish(&mut self) -> (r: Option<Vec<Action>>)
        requires
            old(self).wf(),
        ensures
            final (self).wf(),
            final (self).model() == finish_model(old(self).model()),
            final (self).model().pending.len() == 0,
            match r {
                Some(b) => {
                    &&& old(self).model().pending.len() > 0
                    &&& payloads(b@) == old(self).model().pending
                    &&& forall|i: int|
                        0 <= i < b@.len() ==> (#[trigger] b@[i]).key@ == Seq::<char>::empty()
                },
                None => old(self).model().pending.len() == 0 && *final (self) == *old(self),
            },
    {
        if self.batch.len() == 0 {
            proof {
                assert(payloads(self.batch@) =~= Seq::<Seq<char>>::empty());
            }
            None
        } else {
            let mut flushed: Vec<Action> = Vec::new();
            core::mem::swap(&mut flushed, &mut self.batch);
            let ghost h = self.history@.push(payloads(flushed@));
            self.history = Ghost(h);
            proof {
                assert(payloads(self.batch@) =~= Seq::<Seq<char>>::empty());
            }
            Some(flushed)
        }
    }
}

/// Whether the engine looks overloaded: strictly more than
/// `HOT_SEGMENT_LIMIT` of the sampled segments are still hot. Together
/// with `IngestStep::Accepted::milestone` this is the whole backpressure
/// rule: the caller pauses for `COOLDOWN_SECS` exactly when a milestone
/// was announced and this holds of the sample taken there.
pub fn should_throttle(hot_segments: usize) -> (b: bool)
    ensures
        b == (hot_segments > HOT_SEGMENT_LIMIT),
{
    hot_segments > HOT_SEGMENT_LIMIT
}

} // verus!
