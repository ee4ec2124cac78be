//! The decisions of the progress printer: which messages are shown, and
//! how they interact with the download progress bar.

use vstd::prelude::*;

verus! {

/// A request to the printer.
#[derive(Debug)]
pub enum PrinterMessage {
    /// A line of text for the user.
    Text(String),
    /// Set up a progress bar of the given length (replacing any earlier one).
    SetupPB(usize),
    /// Advance the progress bar by one.
    IncPB,
    /// Show the bar's final state; after this, text and advances are dropped
    /// until a new bar is set up.
    FinalizePB,
}

/// What the printer asks of the terminal in answer to a message.
#[derive(Debug)]
pub enum PrinterAction {
    /// Print the line above the progress bar.
    PrintAboveBar(String),
    /// Print the line on its own (there is no bar).
    PrintLine(String),
    /// Create a new progress bar of the given length and show it.
    CreateBar(usize),
    /// Advance the progress bar by one.
    AdvanceBar,
    /// Redraw the progress bar in its current state.
    RedrawBar,
    /// Nothing to do.
    Nothing,
}

/// The printer's state: the length of the bar it has set up, if any, and
/// whether it still shows output.
#[derive(Debug)]
pub struct Printer {
    pub bar: Option<usize>,
    pub active: bool,
}

/// How the printer answers one message: its next state and the action.
pub open spec fn step(p: Printer, msg: PrinterMessage) -> (Printer, PrinterAction) {
    match msg {
        PrinterMessage::Text(line) => if !p.active {
            (p, PrinterAction::Nothing)
        } else if p.bar is Some {
            (p, PrinterAction::PrintAboveBar(line))
        } else {
            (p, PrinterAction::PrintLine(line))
        },
        PrinterMessage::SetupPB(size) => (
            Printer { bar: Some(size), active: true },
            PrinterAction::CreateBar(size),
        ),
        PrinterMessage::IncPB => if p.bar is Some && p.active {
            (p, PrinterAction::AdvanceBar)
        } else {
            (p, PrinterAction::Nothing)
        },
        PrinterMessage::FinalizePB => if p.bar is Some {
            (
                Printer { bar: p.bar, active: false },
                if p.active {
                    PrinterAction::RedrawBar
                } else {
                    PrinterAction::Nothing
                },
            )
        } else {
            (p, PrinterAction::Nothing)
        },
    }
}

impl Printer {
    /// A printer with no bar, showing output.
    pub fn new() -> (p: Printer)
        ensures
            p.bar is None,
            p.active,
    {
        Printer { bar: None, active: true }
    }

    /// Answers one message: updates the state and says what to show.
    pub fn process(&mut self, msg: PrinterMessage) -> (action: PrinterAction)
        ensures
            (*final(self), action) == step(*old(self), msg),
    {
        match msg {
            PrinterMessage::Text(line) => {
                if !self.active {
                    PrinterAction::Nothing
                } else if self.bar.is_some() {
                    PrinterAction::PrintAboveBar(line)
                } else {
                    PrinterAction::PrintLine(line)
                }
            },
            PrinterMessage::SetupPB(size) => {
                self.bar = Some(size);
                self.active = true;
                PrinterAction::CreateBar(size)
            },
            PrinterMessage::IncPB => {
                if self.bar.is_some() && self.active {
                    PrinterAction::AdvanceBar
                } else {
                    PrinterAction::Nothing
                }
            },
            PrinterMessage::FinalizePB => {
                if self.bar.is_some() {
                    let was_active = self.active;
                    self.active = false;
                    if was_active {
                        PrinterAction::RedrawBar
                    } else {
                        PrinterAction::Nothing
                    }
                } else {
                    PrinterAction::Nothing
                }
            },
        }
    }
}

/// The state after a sequence of messages, and the actions taken in order.
pub open spec fn run(p: Printer, msgs: Seq<PrinterMessage>) -> (Printer, Seq<PrinterAction>)
    decreases msgs.len(),
{
    if msgs.len() == 0 {
        (p, seq![])
    } else {
        let (q, a) = step(p, msgs[0]);
        let (r, rest) = run(q, msgs.drop_first());
        (r, seq![a] + rest)
    }
}

/// The number of `IncPB` messages in `msgs`.
pub open spec fn count_inc(msgs: Seq<PrinterMessage>) -> nat
    decreases msgs.len(),
{
    if msgs.len() == 0 {
        0
    } else {
        (if msgs[0] is IncPB {
            1nat
        } else {
            0nat
        }) + count_inc(msgs.drop_first())
    }
}

/// The number of `AdvanceBar` actions in `acts`.
pub open spec fn count_advance(acts: Seq<PrinterAction>) -> nat
    decreases acts.len(),
{
    if acts.len() == 0 {
        0
    } else {
        (if acts[0] is AdvanceBar {
            1nat
        } else {
            0nat
        }) + count_advance(acts.drop_first())
    }
}

/// Law: once the bar has been finalized, nothing more is shown and the
/// state stays as it is, whatever text, advances or finalizations come,
/// until a new bar is set up.
pub proof fn lemma_finalized_is_silent(p: Printer, msgs: Seq<PrinterMessage>)
    requires
        p.bar is Some,
        !p.active,
        forall|i: int| 0 <= i < msgs.len() ==> !(#[trigger] msgs[i] is SetupPB),
    ensures
        run(p, msgs).0 == p,
        forall|i: int| 0 <= i < run(p, msgs).1.len() ==> #[trigger] run(p, msgs).1[i] is Nothing,
        run(p, msgs).1.len() == msgs.len(),
    decreases msgs.len(),
{
    if msgs.len() > 0 {
        let t = msgs.drop_first();
        assert(!(msgs[0] is SetupPB));
        assert forall|i: int| 0 <= i < t.len() implies !(#[trigger] t[i] is SetupPB) by {
            assert(t[i] == msgs[i + 1]);
        }
        lemma_finalized_is_silent(p, t);
        let acts = run(p, msgs).1;
        assert forall|i: int| 0 <= i < acts.len() implies #[trigger] acts[i] is Nothing by {
            if i > 0 {
                assert(acts[i] == run(p, t).1[i - 1]);
            }
        }
    }
}

/// Law: while a bar is shown and not finalized, it advances exactly once per
/// `IncPB` message, whatever text or new bars come in between.
pub proof fn lemma_bar_counts_increments(p: Printer, msgs: Seq<PrinterMessage>)
    requires
        p.bar is Some,
        p.active,
        forall|i: int| 0 <= i < msgs.len() ==> !(#[trigger] msgs[i] is FinalizePB),
    ensures
        count_advance(run(p, msgs).1) == count_inc(msgs),
        run(p, msgs).0.bar is Some,
        run(p, msgs).0.active,
    decreases msgs.len(),
{
    if msgs.len() > 0 {
        let t = msgs.drop_first();
        assert(!(msgs[0] is FinalizePB));
        assert forall|i: int| 0 <= i < t.len() implies !(#[trigger] t[i] is FinalizePB) by {
            assert(t[i] == msgs[i + 1]);
        }
        let (q, a) = step(p, msgs[0]);
        lemma_bar_counts_increments(q, t);
        let acts = run(p, msgs).1;
        assert(acts[0] == a);
        assert(acts.drop_first() =~= run(q, t).1);
    }
}

/// The number of `IncPB` messages before the first `FinalizePB` (all of
/// them where there is none).
pub open spec fn count_inc_before_finalize(msgs: Seq<PrinterMessage>) -> nat
    decreases msgs.len(),
{
    if msgs.len() == 0 {
        0
    } else if msgs[0] is FinalizePB {
        0
    } else {
        (if msgs[0] is IncPB {
            1nat
        } else {
            0nat
        }) + count_inc_before_finalize(msgs.drop_first())
    }
}

/// Whether `msgs` holds a `FinalizePB`.
pub open spec fn has_finalize(msgs: Seq<PrinterMessage>) -> bool {
    exists|i: int| 0 <= i < msgs.len() && #[trigger] msgs[i] is FinalizePB
}

/// Law: what each message does. An active printer shows every text line
/// unchanged, above the bar where there is one; a printer that is not active
/// shows none. Setting up a bar always creates it with the given length and
/// makes the printer active. Without a bar, advances and finalizations do
/// nothing at all.
pub proof fn lemma_message_effects(p: Printer, line: String, n: usize)
    ensures
        p.active ==> (step(p, PrinterMessage::Text(line)).1 matches PrinterAction::PrintAboveBar(l)
            && l == line && p.bar is Some) || (step(p, PrinterMessage::Text(line)).1 matches PrinterAction::PrintLine(l)
            && l == line && p.bar is None),
        !p.active ==> step(p, PrinterMessage::Text(line)).1 is Nothing,
        step(p, PrinterMessage::SetupPB(n)).0 == (Printer { bar: Some(n), active: true }),
        step(p, PrinterMessage::SetupPB(n)).1 matches PrinterAction::CreateBar(m) && m == n,
        p.bar is None ==> step(p, PrinterMessage::IncPB) == (p, PrinterAction::Nothing),
        p.bar is None ==> step(p, PrinterMessage::FinalizePB) == (p, PrinterAction::Nothing),
        p.bar is Some ==> (step(p, PrinterMessage::IncPB).1 is AdvanceBar <==> p.active),
        p.bar is Some ==> !step(p, PrinterMessage::FinalizePB).0.active,
{
}

/// Law: a text message never changes the printer's state.
pub proof fn lemma_text_keeps_state(p: Printer, line: String)
    ensures
        step(p, PrinterMessage::Text(line)).0 == p,
{
}

proof fn lemma_run_len(p: Printer, msgs: Seq<PrinterMessage>)
    ensures
        run(p, msgs).1.len() == msgs.len(),
    decreases msgs.len(),
{
    if msgs.len() > 0 {
        lemma_run_len(step(p, msgs[0]).0, msgs.drop_first());
    }
}

/// Running two sequences one after the other is running their
/// concatenation.
proof fn lemma_run_append(p: Printer, a: Seq<PrinterMessage>, b: Seq<PrinterMessage>)
    ensures
        run(p, a + b).0 == run(run(p, a).0, b).0,
        run(p, a + b).1 == run(p, a).1 + run(run(p, a).0, b).1,
    decreases a.len(),
{
    if a.len() == 0 {
        assert(a + b =~= b);
        assert(run(p, a).1 + run(p, b).1 =~= run(p, b).1);
    } else {
        let q = step(p, a[0]).0;
        assert((a + b)[0] == a[0]);
        assert((a + b).drop_first() =~= a.drop_first() + b);
        lemma_run_append(q, a.drop_first(), b);
        let x = step(p, a[0]).1;
        assert(seq![x] + (run(q, a.drop_first()).1 + run(run(q, a.drop_first()).0, b).1) =~= (
        seq![x] + run(q, a.drop_first()).1) + run(run(q, a.drop_first()).0, b).1);
    }
}

proof fn lemma_count_advance_silent(acts: Seq<PrinterAction>)
    requires
        forall|i: int| 0 <= i < acts.len() ==> #[trigger] acts[i] is Nothing,
    ensures
        count_advance(acts) == 0,
    decreases acts.len(),
{
    if acts.len() > 0 {
        assert(acts[0] is Nothing);
        assert forall|i: int| 0 <= i < acts.drop_first().len() implies #[trigger] acts.drop_first()[i] is Nothing by {
            assert(acts.drop_first()[i] == acts[i + 1]);
        }
        lemma_count_advance_silent(acts.drop_first());
    }
}

proof fn lemma_count_advance_cons(a: PrinterAction, rest: Seq<PrinterAction>)
    ensures
        count_advance(seq![a] + rest) == (if a is AdvanceBar {
            1nat
        } else {
            0nat
        }) + count_advance(rest),
{
    assert((seq![a] + rest).drop_first() =~= rest);
}

proof fn lemma_after_setup(n: usize, msgs: Seq<PrinterMessage>)
    requires
        forall|i: int| 0 <= i < msgs.len() ==> !(#[trigger] msgs[i] is SetupPB),
    ensures
        run(Printer { bar: Some(n), active: true }, msgs).0.bar == Some(n),
        run(Printer { bar: Some(n), active: true }, msgs).0.active == !has_finalize(msgs),
        count_advance(run(Printer { bar: Some(n), active: true }, msgs).1)
            == count_inc_before_finalize(msgs),
    decreases msgs.len(),
{
    let p = Printer { bar: Some(n), active: true };
    if msgs.len() > 0 {
        let t = msgs.drop_first();
        assert forall|i: int| 0 <= i < t.len() implies !(#[trigger] t[i] is SetupPB) by {
            assert(t[i] == msgs[i + 1]);
        }
        assert(!(msgs[0] is SetupPB));
        let (q, a) = step(p, msgs[0]);
        lemma_count_advance_cons(a, run(q, t).1);
        if msgs[0] is FinalizePB {
            lemma_finalized_is_silent(q, t);
            lemma_count_advance_silent(run(q, t).1);
            assert(has_finalize(msgs));
        } else {
            assert(q == p);
            lemma_after_setup(n, t);
            if has_finalize(t) {
                let i = choose|i: int| 0 <= i < t.len() && #[trigger] t[i] is FinalizePB;
                assert(msgs[i + 1] == t[i]);
            }
            if has_finalize(msgs) {
                let i = choose|i: int| 0 <= i < msgs.len() && #[trigger] msgs[i] is FinalizePB;
                assert(t[i - 1] == msgs[i]);
            }
        }
    } else {
        assert(!has_finalize(msgs));
    }
}

/// Law: whatever came before, after a `SetupPB(n)` followed by messages
/// that set up no other bar, the printer holds a bar of length `n`, it is
/// active exactly when no `FinalizePB` came, and the bar has advanced once
/// for each `IncPB` before the first `FinalizePB` (text in between changes
/// nothing).
pub proof fn lemma_bar_tracks_messages(
    p: Printer,
    before: Seq<PrinterMessage>,
    n: usize,
    after: Seq<PrinterMessage>,
)
    requires
        forall|i: int| 0 <= i < after.len() ==> !(#[trigger] after[i] is SetupPB),
    ensures
        run(p, before + seq![PrinterMessage::SetupPB(n)] + after).0.bar == Some(n),
        run(p, before + seq![PrinterMessage::SetupPB(n)] + after).0.active == !has_finalize(after),
        count_advance(
            run(p, before + seq![PrinterMessage::SetupPB(n)] + after).1.skip(before.len() + 1int),
        ) == count_inc_before_finalize(after),
{
    let setup = seq![PrinterMessage::SetupPB(n)];
    let first = before + setup;
    lemma_run_append(p, first, after);
    lemma_run_append(p, before, setup);
    let mid = run(p, before).0;
    assert(setup.drop_first() =~= Seq::<PrinterMessage>::empty());
    assert(setup[0] == PrinterMessage::SetupPB(n));
    let q = step(mid, setup[0]).0;
    assert(run(q, setup.drop_first()).0 == q);
    assert(run(mid, setup).0 == Printer { bar: Some(n), active: true });
    lemma_after_setup(n, after);
    lemma_run_len(p, first);
    let acts = run(p, first + after).1;
    assert(acts.skip(before.len() + 1int) =~= run(run(p, first).0, after).1);
}

/// A task that the printer runs to completion: a future with no result that
/// can move between threads.
pub trait PrintMessageCallback: core::future::Future<Output = ()> + Send + 'static {}

impl<T: core::future::Future<Output = ()> + Send + 'static> PrintMessageCallback for T {}

} // verus!
