//! One whole request: the assembler driven against a rendering, and what
//! holds of every such run.
//!
//! A [`Rendering`] says what the rendering code of one request does: which
//! fragments it hands over, how the response metadata stands after each, how
//! the sequence ends, and what the document's shell is. [`run`] is the list
//! of actions that the assembler takes when a driver performs each action and
//! reports back what the rendering gives.

use crate::assembler::{
    committed, concat, deeds, disposes, document, emits, failure, initial, is_final, lemma_concat_add,
    lemma_concat_one, next, opens, ActionView, AssemblerView, Deed, EventView, Phase,
    ResponseHeadView,
};
use crate::mode::SsrMode;
use crate::response::{untouched, ResponseOptionsView};
use vstd::prelude::*;

verus! {

/// One fragment, and the response metadata as it stands when the fragment is
/// handed over.
pub struct Produced {
    pub chunk: Seq<char>,
    pub meta: ResponseOptionsView,
}

/// How a fragment sequence ends.
pub enum Ending {
    /// It has no more fragments.
    Exhausted,
    /// It fails, with a description.
    Failed(Seq<char>),
    /// The client goes away.
    Disconnected,
}

/// What the rendering code of one request does.
pub struct Rendering {
    /// The fragments, in the order of production.
    pub produced: Seq<Produced>,
    /// What follows the last fragment.
    pub ending: Ending,
    /// The metadata as it stands from the ending on.
    pub at_end: ResponseOptionsView,
    /// The document's head markup.
    pub head: Seq<char>,
    /// The document's tail markup.
    pub tail: Seq<char>,
}

impl Rendering {
    /// The texts of the fragments.
    pub open spec fn chunks(self) -> Seq<Seq<char>> {
        Seq::new(self.produced.len(), |i: int| self.produced[i].chunk)
    }

    /// The texts of the fragments from the `k`-th on.
    pub open spec fn rest(self, k: nat) -> Seq<Seq<char>> {
        if k <= self.produced.len() {
            self.chunks().skip(k as int)
        } else {
            Seq::empty()
        }
    }

    /// What the `k`-th poll of the fragment sequence reports, counted from 0.
    pub open spec fn reply(self, k: nat) -> EventView {
        if k < self.produced.len() {
            EventView::Fragment(self.produced[k as int].chunk)
        } else {
            match self.ending {
                Ending::Exhausted => EventView::Exhausted,
                Ending::Failed(d) => EventView::Failed(d),
                Ending::Disconnected => EventView::Disconnected,
            }
        }
    }

    /// The metadata as it stands after `polls` polls: untouched before the
    /// first.
    pub open spec fn meta_after(self, polls: nat) -> ResponseOptionsView {
        if polls == 0 {
            untouched()
        } else if polls <= self.produced.len() {
            self.produced[polls - 1].meta
        } else {
            self.at_end
        }
    }

    /// The number of fragments that are still to come after `polls` polls.
    pub open spec fn left(self, polls: nat) -> nat {
        if polls < self.produced.len() {
            (self.produced.len() - polls) as nat
        } else {
            0
        }
    }

    /// What the driver reports after it has performed `pending`, and the
    /// number of polls made by then; nothing after an action that ends the
    /// request.
    pub open spec fn report(self, pending: ActionView, polls: nat) -> Option<(EventView, nat)> {
        match pending {
            ActionView::Pull | ActionView::Open { .. } | ActionView::Forward(_) => Some(
                (self.reply(polls), polls + 1),
            ),
            ActionView::BuildShell => Some(
                (EventView::Shell { head: self.head, tail: self.tail }, polls),
            ),
            _ => None,
        }
    }
}

/// How far a phase is from the end of the request.
pub open spec fn rank(phase: Phase) -> nat {
    match phase {
        Phase::Priming => 4,
        Phase::Shell => 3,
        Phase::Topping => 2,
        Phase::Streaming => 1,
        Phase::Done => 0,
    }
}

/// Whether a step brought the request nearer its end: a later phase, or the
/// same phase with fewer fragments to come.
pub open spec fn advances(
    r: Rendering,
    m: AssemblerView,
    polls: nat,
    m2: AssemblerView,
    polls2: nat,
) -> bool {
    rank(m2.phase) < rank(m.phase) || (rank(m2.phase) == rank(m.phase) && r.left(polls2) < r.left(
        polls,
    ))
}

/// The actions that the machine takes from state `m` on, once its driver has
/// performed `pending`, after `polls` polls of the rendering `r`. A driver
/// that is asked the same thing again without anything having moved stops.
pub open spec fn run(m: AssemblerView, pending: ActionView, r: Rendering, polls: nat) -> Seq<
    ActionView,
>
    decreases rank(m.phase), r.left(polls),
{
    match r.report(pending, polls) {
        None => Seq::empty(),
        Some((event, polls2)) => {
            let (m2, action) = next(m, event, r.meta_after(polls2));
            if advances(r, m, polls, m2, polls2) {
                seq![action] + run(m2, action, r, polls2)
            } else {
                seq![action]
            }
        },
    }
}

/// The actions of one whole request under strategy `mode`, with `prime`
/// fragments held back before a streamed response is opened. The driver
/// begins by polling.
pub open spec fn outcome(mode: SsrMode, prime: nat, r: Rendering) -> Seq<ActionView> {
    run(initial(mode, prime), ActionView::Pull, r, 0)
}

/// The chunks that the actions hand to the transport, in order.
pub open spec fn sent(actions: Seq<ActionView>) -> Seq<Seq<char>>
    decreases actions.len(),
{
    if actions.len() == 0 {
        Seq::empty()
    } else {
        emits(actions[0]) + sent(actions.drop_first())
    }
}

/// What the actions fix as status and headers of the response, in order.
pub open spec fn openings(actions: Seq<ActionView>) -> Seq<ResponseHeadView>
    decreases actions.len(),
{
    if actions.len() == 0 {
        Seq::empty()
    } else {
        match opens(actions[0]) {
            Some(head) => seq![head] + openings(actions.drop_first()),
            None => openings(actions.drop_first()),
        }
    }
}

/// Whether `pending` fits the state `m`: it has the driver poll while
/// fragments are awaited, and build the shell while the shell is awaited.
pub open spec fn coherent(m: AssemblerView, pending: ActionView) -> bool {
    match m.phase {
        Phase::Priming | Phase::Topping | Phase::Streaming => pending is Pull || pending is Open
            || pending is Forward,
        Phase::Shell => pending is BuildShell,
        Phase::Done => is_final(pending),
    }
}

/// What `sent` and `openings` are of a list that begins with `a`.
pub proof fn lemma_observe_first(a: ActionView, rest: Seq<ActionView>)
    ensures
        sent(seq![a] + rest) == emits(a) + sent(rest),
        openings(seq![a] + rest) == match opens(a) {
            Some(head) => seq![head] + openings(rest),
            None => openings(rest),
        },
{
    let all = seq![a] + rest;
    assert(all.drop_first() =~= rest);
    assert(all[0] == a);
}

/// Every run ends, and ends with the one action that has the render context
/// disposed of: no action before the last one disposes or halts.
pub proof fn lemma_run_disposes_last(m: AssemblerView, pending: ActionView, r: Rendering, polls: nat)
    requires
        coherent(m, pending),
        m.phase != Phase::Done,
    ensures
        run(m, pending, r, polls).len() >= 1,
        disposes(run(m, pending, r, polls).last()),
        forall|i: int|
            0 <= i < run(m, pending, r, polls).len() - 1 ==> !is_final(
                #[trigger] run(m, pending, r, polls)[i],
            ),
    decreases rank(m.phase), r.left(polls),
{
    let (event, polls2) = r.report(pending, polls).unwrap();
    let (m2, action) = next(m, event, r.meta_after(polls2));
    assert(coherent(m2, action));
    if m2.phase == Phase::Done {
        assert(advances(r, m, polls, m2, polls2));
        assert(r.report(action, polls2).is_none());
        assert(run(m2, action, r, polls2) =~= Seq::<ActionView>::empty());
        assert(run(m, pending, r, polls) =~= seq![action]);
    } else {
        assert(advances(r, m, polls, m2, polls2));
        lemma_run_disposes_last(m2, action, r, polls2);
        let tail_run = run(m2, action, r, polls2);
        let all = run(m, pending, r, polls);
        assert(all =~= seq![action] + tail_run);
        assert(all.last() == tail_run.last());
        assert forall|i: int| 0 <= i < all.len() - 1 implies !is_final(#[trigger] all[i]) by {
            if i > 0 {
                assert(all[i] == tail_run[i - 1]);
            }
        }
    }
}

/// The text that is still to reach the client from state `m` on, after
/// `polls` polls of a rendering that ends without failure: what is held,
/// what is to come, and the shell around it as far as it has not been sent.
pub open spec fn owed(m: AssemblerView, r: Rendering, polls: nat) -> Seq<char> {
    match m.phase {
        Phase::Priming | Phase::Shell => r.head + concat(m.held) + concat(r.rest(polls)) + r.tail,
        Phase::Topping => concat(m.held) + concat(r.rest(polls)) + m.tail,
        Phase::Streaming => concat(r.rest(polls)) + m.tail,
        Phase::Done => Seq::empty(),
    }
}

/// Writing out parts behind a first part.
pub proof fn lemma_concat_cons(first: Seq<char>, parts: Seq<Seq<char>>)
    ensures
        concat(seq![first] + parts) == first + concat(parts),
{
    lemma_concat_add(seq![first], parts);
    lemma_concat_one(first);
}

/// Writing out parts before a last part.
pub proof fn lemma_concat_push(parts: Seq<Seq<char>>, last: Seq<char>)
    ensures
        concat(parts.push(last)) == concat(parts) + last,
{
    assert(parts.push(last).drop_last() =~= parts);
}

/// The fragments to come begin with the one that the next poll reports.
pub proof fn lemma_rest_unfold(r: Rendering, k: nat)
    requires
        k < r.produced.len(),
    ensures
        r.rest(k) == seq![r.produced[k as int].chunk] + r.rest(k + 1),
        concat(r.rest(k)) == r.produced[k as int].chunk + concat(r.rest(k + 1)),
{
    assert(r.rest(k) =~= seq![r.produced[k as int].chunk] + r.rest(k + 1));
    lemma_concat_cons(r.produced[k as int].chunk, r.rest(k + 1));
}

/// Once the fragments have run out, none is to come.
pub proof fn lemma_rest_empty(r: Rendering, k: nat)
    requires
        k >= r.produced.len(),
    ensures
        r.rest(k) == Seq::<Seq<char>>::empty(),
        concat(r.rest(k)) == Seq::<char>::empty(),
{
    assert(r.rest(k) =~= Seq::<Seq<char>>::empty());
}

/// Whether the state `m`, reached after `polls` polls, may occur in a run of
/// the rendering `r` that ends without failure: the tail in hand is the
/// rendering's, and a document that goes out in one piece asks for its shell
/// only when the fragments have run out.
pub open spec fn on_course(m: AssemblerView, r: Rendering, polls: nat) -> bool {
    &&& r.ending is Exhausted
    &&& m.phase is Topping || m.phase is Streaming ==> m.tail == r.tail
    &&& m.phase is Shell && !m.mode.spec_streams() ==> polls >= r.produced.len()
}

/// The state and the action that follow `pending`, and the polls made by
/// then.
pub open spec fn after(m: AssemblerView, pending: ActionView, r: Rendering, polls: nat) -> (
    AssemblerView,
    ActionView,
    nat,
) {
    let (event, polls2) = r.report(pending, polls).unwrap();
    let (m2, action) = next(m, event, r.meta_after(polls2));
    (m2, action, polls2)
}

proof fn lemma_priming_keeps_owed(m: AssemblerView, pending: ActionView, r: Rendering, polls: nat)
    requires
        coherent(m, pending),
        on_course(m, r, polls),
        m.phase is Priming,
    ensures
        concat(emits(after(m, pending, r, polls).1)) + owed(
            after(m, pending, r, polls).0,
            r,
            after(m, pending, r, polls).2,
        ) == owed(m, r, polls),
{
    let (m2, action, polls2) = after(m, pending, r, polls);
    assert(emits(action) =~= Seq::<Seq<char>>::empty());
    assert(concat(emits(action)) =~= Seq::<char>::empty());
    if polls < r.produced.len() {
        lemma_rest_unfold(r, polls);
        let f = r.produced[polls as int].chunk;
        lemma_concat_push(m.held, f);
        assert(owed(m2, r, polls2) =~= owed(m, r, polls));
    } else {
        lemma_rest_empty(r, polls);
        lemma_rest_empty(r, polls + 1);
        assert(owed(m2, r, polls2) =~= owed(m, r, polls));
    }
    assert(Seq::<char>::empty() + owed(m2, r, polls2) =~= owed(m2, r, polls2));
}

proof fn lemma_shell_keeps_owed(m: AssemblerView, pending: ActionView, r: Rendering, polls: nat)
    requires
        coherent(m, pending),
        on_course(m, r, polls),
        m.phase is Shell,
    ensures
        concat(emits(after(m, pending, r, polls).1)) + owed(
            after(m, pending, r, polls).0,
            r,
            after(m, pending, r, polls).2,
        ) == owed(m, r, polls),
{
    let (m2, action, polls2) = after(m, pending, r, polls);
    lemma_concat_cons(r.head, m.held);
    if !m.mode.spec_streams() {
        lemma_rest_empty(r, polls);
        let body = r.head + concat(m.held) + r.tail;
        assert(emits(action) =~= seq![body]);
        lemma_concat_one(body);
        assert(body + Seq::<char>::empty() =~= owed(m, r, polls));
    } else if m.held.len() >= m.prime {
        assert(emits(action) =~= seq![r.head] + m.held);
        assert((r.head + concat(m.held)) + (concat(r.rest(polls)) + r.tail) =~= owed(m, r, polls));
    } else {
        assert(emits(action) =~= Seq::<Seq<char>>::empty());
        assert(concat(emits(action)) =~= Seq::<char>::empty());
        assert(Seq::<char>::empty() + owed(m2, r, polls2) =~= owed(m, r, polls));
    }
}

proof fn lemma_topping_keeps_owed(m: AssemblerView, pending: ActionView, r: Rendering, polls: nat)
    requires
        coherent(m, pending),
        on_course(m, r, polls),
        m.phase is Topping,
    ensures
        concat(emits(after(m, pending, r, polls).1)) + owed(
            after(m, pending, r, polls).0,
            r,
            after(m, pending, r, polls).2,
        ) == owed(m, r, polls),
{
    let (m2, action, polls2) = after(m, pending, r, polls);
    if polls < r.produced.len() {
        lemma_rest_unfold(r, polls);
        let f = r.produced[polls as int].chunk;
        lemma_concat_push(m.held, f);
        if m.held.len() >= m.prime {
            assert(emits(action) =~= m.held.push(f));
            assert((concat(m.held) + f) + (concat(r.rest(polls + 1)) + m.tail) =~= owed(
                m,
                r,
                polls,
            ));
        } else {
            assert(emits(action) =~= Seq::<Seq<char>>::empty());
            assert(concat(emits(action)) =~= Seq::<char>::empty());
            assert(Seq::<char>::empty() + owed(m2, r, polls2) =~= owed(m, r, polls));
        }
    } else {
        lemma_rest_empty(r, polls);
        lemma_rest_empty(r, polls + 1);
        assert(emits(action) =~= m.held);
        assert(concat(m.held) + (Seq::<char>::empty() + m.tail) =~= owed(m, r, polls));
    }
}

proof fn lemma_streaming_keeps_owed(m: AssemblerView, pending: ActionView, r: Rendering, polls: nat)
    requires
        coherent(m, pending),
        on_course(m, r, polls),
        m.phase is Streaming,
    ensures
        concat(emits(after(m, pending, r, polls).1)) + owed(
            after(m, pending, r, polls).0,
            r,
            after(m, pending, r, polls).2,
        ) == owed(m, r, polls),
{
    let (m2, action, polls2) = after(m, pending, r, polls);
    if polls < r.produced.len() {
        lemma_rest_unfold(r, polls);
        let f = r.produced[polls as int].chunk;
        assert(emits(action) =~= seq![f]);
        lemma_concat_one(f);
        assert(f + (concat(r.rest(polls + 1)) + m.tail) =~= owed(m, r, polls));
    } else {
        lemma_rest_empty(r, polls);
        assert(emits(action) =~= seq![m.tail]);
        lemma_concat_one(m.tail);
        assert(m.tail + Seq::<char>::empty() =~= owed(m, r, polls));
    }
}

/// A step hands over a part of the text that was owed and leaves the rest
/// owed, on course as before.
pub proof fn lemma_step_keeps_owed(m: AssemblerView, pending: ActionView, r: Rendering, polls: nat)
    requires
        coherent(m, pending),
        on_course(m, r, polls),
        m.phase != Phase::Done,
    ensures
        concat(emits(after(m, pending, r, polls).1)) + owed(
            after(m, pending, r, polls).0,
            r,
            after(m, pending, r, polls).2,
        ) == owed(m, r, polls),
        coherent(after(m, pending, r, polls).0, after(m, pending, r, polls).1),
        on_course(after(m, pending, r, polls).0, r, after(m, pending, r, polls).2),
        advances(r, m, polls, after(m, pending, r, polls).0, after(m, pending, r, polls).2),
{
    match m.phase {
        Phase::Priming => lemma_priming_keeps_owed(m, pending, r, polls),
        Phase::Shell => lemma_shell_keeps_owed(m, pending, r, polls),
        Phase::Topping => lemma_topping_keeps_owed(m, pending, r, polls),
        Phase::Streaming => lemma_streaming_keeps_owed(m, pending, r, polls),
        Phase::Done => {},
    }
}

/// Where the rendering ends without failure, the chunks that a run hands to
/// the transport, written one after the other, are the text that was owed.
pub proof fn lemma_run_sends_owed(m: AssemblerView, pending: ActionView, r: Rendering, polls: nat)
    requires
        coherent(m, pending),
        on_course(m, r, polls),
    ensures
        concat(sent(run(m, pending, r, polls))) == owed(m, r, polls),
    decreases rank(m.phase), r.left(polls),
{
    if m.phase == Phase::Done {
        assert(run(m, pending, r, polls) =~= Seq::<ActionView>::empty());
        assert(sent(Seq::<ActionView>::empty()) =~= Seq::<Seq<char>>::empty());
    } else {
        let (m2, action, polls2) = after(m, pending, r, polls);
        lemma_step_keeps_owed(m, pending, r, polls);
        lemma_run_sends_owed(m2, action, r, polls2);
        let rest_run = run(m2, action, r, polls2);
        assert(run(m, pending, r, polls) =~= seq![action] + rest_run);
        lemma_observe_first(action, rest_run);
        lemma_concat_add(emits(action), sent(rest_run));
    }
}

/// `n` requests to poll.
pub open spec fn pulls(n: nat) -> Seq<ActionView> {
    Seq::new(n, |i: int| ActionView::Pull)
}

/// How many fragments are in hand when a streamed response is opened: the
/// first one always, more where more are held back.
pub open spec fn primed(prime: nat) -> nat {
    if prime == 0 {
        1
    } else {
        prime
    }
}

/// The action that opens a streamed response of the rendering `r` once `k`
/// fragments are in hand: the metadata is read as it stands after the `k`-th
/// fragment, and the head markup goes out with those fragments behind it.
pub open spec fn opening_with(r: Rendering, k: nat) -> ActionView {
    ActionView::Open {
        head: committed(r.meta_after(k)),
        chunks: seq![r.head] + r.chunks().take(k as int),
    }
}

/// Once the response is open, no action fixes status or headers again,
/// however the rendering goes on and ends.
pub proof fn lemma_streaming_never_opens(
    m: AssemblerView,
    pending: ActionView,
    r: Rendering,
    polls: nat,
)
    requires
        coherent(m, pending),
        m.phase is Streaming || m.phase is Done,
    ensures
        openings(run(m, pending, r, polls)) == Seq::<ResponseHeadView>::empty(),
    decreases rank(m.phase), r.left(polls),
{
    if m.phase is Done {
        assert(run(m, pending, r, polls) =~= Seq::<ActionView>::empty());
    } else {
        let (m2, action, polls2) = after(m, pending, r, polls);
        assert(coherent(m2, action));
        assert(advances(r, m, polls, m2, polls2));
        lemma_streaming_never_opens(m2, action, r, polls2);
        let rest_run = run(m2, action, r, polls2);
        assert(run(m, pending, r, polls) =~= seq![action] + rest_run);
        lemma_observe_first(action, rest_run);
    }
}

/// While fragments are forced behind the shell and enough of them are still
/// to come, the machine only polls, then opens the response exactly when
/// `m.prime` fragments are in hand, with the metadata of that moment.
pub proof fn lemma_topping_opens(m: AssemblerView, pending: ActionView, r: Rendering, polls: nat)
    requires
        coherent(m, pending),
        m.phase is Topping,
        polls < m.prime <= r.produced.len(),
        m.held == seq![r.head] + r.chunks().take(polls as int),
    ensures
        run(m, pending, r, polls) == pulls((m.prime - polls - 1) as nat) + seq![
            opening_with(r, m.prime),
        ] + run(
            crate::assembler::streaming(m),
            opening_with(r, m.prime),
            r,
            m.prime,
        ),
    decreases m.prime - polls,
{
    let (m2, action, polls2) = after(m, pending, r, polls);
    let f = r.produced[polls as int].chunk;
    assert(r.chunks().take(polls + 1 as int) =~= r.chunks().take(polls as int).push(f));
    assert(m.held.push(f) =~= seq![r.head] + r.chunks().take(polls + 1 as int));
    assert(advances(r, m, polls, m2, polls2));
    let rest_run = run(m2, action, r, polls2);
    assert(run(m, pending, r, polls) =~= seq![action] + rest_run);
    if polls + 1 == m.prime {
        assert(action == opening_with(r, m.prime));
        assert(pulls(0) =~= Seq::<ActionView>::empty());
        assert(run(m, pending, r, polls) =~= pulls(0) + seq![opening_with(r, m.prime)] + rest_run);
    } else {
        lemma_topping_opens(m2, action, r, polls2);
        let k = (m.prime - polls - 1) as nat;
        assert(pulls(k) =~= seq![ActionView::Pull] + pulls((k - 1) as nat));
        assert(run(m, pending, r, polls) =~= pulls(k) + seq![opening_with(r, m.prime)] + run(
            crate::assembler::streaming(m),
            opening_with(r, m.prime),
            r,
            m.prime,
        ));
    }
}

/// A streamed response is opened as soon as the primed fragments are in
/// hand, whatever comes later: the machine asks for the shell after the
/// first fragment, polls for the fragments that are still held back, and
/// then opens the response with the head markup and those fragments, under
/// the metadata as it stands at that moment. Nothing after that moment
/// changes status or headers.
pub proof fn lemma_streamed_response_opens_after_priming(mode: SsrMode, prime: nat, r: Rendering)
    requires
        mode.spec_streams(),
        r.produced.len() >= primed(prime),
    ensures
        outcome(mode, prime, r).len() > primed(prime),
        outcome(mode, prime, r).take(primed(prime) + 1 as int) == seq![ActionView::BuildShell] + pulls(
            (primed(prime) - 1) as nat,
        ) + seq![opening_with(r, primed(prime))],
        openings(outcome(mode, prime, r)) == seq![committed(r.meta_after(primed(prime)))],
{
    let k = primed(prime);
    let m0 = initial(mode, prime);
    let (m1, a1, k1) = after(m0, ActionView::Pull, r, 0);
    assert(a1 == ActionView::BuildShell);
    assert(advances(r, m0, 0, m1, k1));
    let run1 = run(m1, a1, r, k1);
    assert(outcome(mode, prime, r) =~= seq![a1] + run1);
    let (m2, a2, k2) = after(m1, a1, r, k1);
    assert(advances(r, m1, k1, m2, k2));
    let run2 = run(m2, a2, r, k2);
    assert(run1 =~= seq![a2] + run2);
    let f0 = r.produced[0].chunk;
    assert(m1.held =~= seq![f0]);
    assert(r.chunks().take(1) =~= seq![f0]);
    let opened = crate::assembler::streaming(m2);
    let streamed = run(opened, opening_with(r, k), r, k);
    lemma_streaming_never_opens(opened, opening_with(r, k), r, k);
    if prime <= 1 {
        assert(a2 == opening_with(r, 1));
        assert(crate::assembler::streaming(m2) == m2);
        assert(pulls(0) =~= Seq::<ActionView>::empty());
        let all = outcome(mode, prime, r);
        assert(all =~= seq![a1, a2] + run2);
        assert(all.take(2) =~= seq![ActionView::BuildShell] + pulls(0) + seq![opening_with(r, 1)]);
        lemma_observe_first(a2, run2);
        lemma_observe_first(a1, run1);
    } else {
        assert(a2 == ActionView::Pull);
        assert(m2.held =~= seq![r.head] + r.chunks().take(1));
        lemma_topping_opens(m2, a2, r, 1);
        let quiet = pulls((k - 2) as nat);
        assert(run2 =~= quiet + seq![opening_with(r, k)] + streamed);
        let all = outcome(mode, prime, r);
        let front = seq![ActionView::BuildShell] + pulls((k - 1) as nat);
        assert(pulls((k - 1) as nat) =~= seq![ActionView::Pull] + quiet);
        assert(all =~= front + seq![opening_with(r, k)] + streamed);
        assert(all.take(k + 1 as int) =~= front + seq![opening_with(r, k)]);
        lemma_quiet_actions_open_nothing(front);
        lemma_openings_add(front, seq![opening_with(r, k)] + streamed);
        assert(front + (seq![opening_with(r, k)] + streamed) =~= all);
        lemma_observe_first(opening_with(r, k), streamed);
    }
}

/// Actions that open nothing add nothing to the openings.
pub proof fn lemma_quiet_actions_open_nothing(actions: Seq<ActionView>)
    requires
        forall|i: int| 0 <= i < actions.len() ==> opens(#[trigger] actions[i]).is_none(),
    ensures
        openings(actions) == Seq::<ResponseHeadView>::empty(),
    decreases actions.len(),
{
    if actions.len() > 0 {
        let rest_actions = actions.drop_first();
        assert forall|i: int| 0 <= i < rest_actions.len() implies opens(
            #[trigger] rest_actions[i],
        ).is_none() by {
            assert(rest_actions[i] == actions[i + 1]);
        }
        lemma_quiet_actions_open_nothing(rest_actions);
        assert(opens(actions[0]).is_none());
    }
}

/// The openings of two lists of actions, one behind the other.
pub proof fn lemma_openings_add(a: Seq<ActionView>, b: Seq<ActionView>)
    ensures
        openings(a + b) == openings(a) + openings(b),
    decreases a.len(),
{
    if a.len() == 0 {
        assert(a + b =~= b);
        assert(openings(a) + openings(b) =~= openings(b));
    } else {
        lemma_openings_add(a.drop_first(), b);
        assert((a + b).drop_first() =~= a.drop_first() + b);
        assert((a + b)[0] == a[0]);
        match opens(a[0]) {
            Some(head) => {
                assert(openings(a + b) =~= openings(a) + openings(b));
            },
            None => {},
        }
    }
}

/// Whether the metadata of the rendering `r` stands at `meta` from the first
/// poll on.
pub open spec fn settled(r: Rendering, meta: ResponseOptionsView) -> bool {
    forall|polls: nat| polls >= 1 ==> #[trigger] r.meta_after(polls) == meta
}

/// Where the metadata is settled from the first poll on and the rendering
/// ends without failure, a run that has not opened the response yet opens it
/// once, with that metadata.
pub proof fn lemma_run_opens_settled(
    m: AssemblerView,
    pending: ActionView,
    r: Rendering,
    polls: nat,
    meta: ResponseOptionsView,
)
    requires
        coherent(m, pending),
        on_course(m, r, polls),
        settled(r, meta),
        m.phase is Shell || m.phase is Topping ==> polls >= 1,
    ensures
        openings(run(m, pending, r, polls)) == if m.phase is Streaming || m.phase is Done {
            Seq::<ResponseHeadView>::empty()
        } else {
            seq![committed(meta)]
        },
    decreases rank(m.phase), r.left(polls),
{
    if m.phase is Streaming || m.phase is Done {
        lemma_streaming_never_opens(m, pending, r, polls);
    } else {
        let (m2, action, polls2) = after(m, pending, r, polls);
        lemma_step_keeps_owed(m, pending, r, polls);
        lemma_run_opens_settled(m2, action, r, polls2, meta);
        let rest_run = run(m2, action, r, polls2);
        assert(run(m, pending, r, polls) =~= seq![action] + rest_run);
        lemma_observe_first(action, rest_run);
        assert(r.meta_after(polls2) == meta);
        match opens(action) {
            Some(head) => {
                assert(head == committed(meta));
                assert(seq![head] + Seq::<ResponseHeadView>::empty() =~= seq![head]);
            },
            None => {},
        }
    }
}

/// Under every strategy: where rendering code has set the metadata by the
/// time its first fragment is out and leaves it alone from then on, and the
/// rendering ends without failure, the response carries what was set: the
/// status that was set, else 200, and the headers that were set behind the
/// document's media type.
pub proof fn lemma_early_metadata_is_committed(
    mode: SsrMode,
    prime: nat,
    r: Rendering,
    meta: ResponseOptionsView,
)
    requires
        r.ending is Exhausted,
        settled(r, meta),
    ensures
        openings(outcome(mode, prime, r)) == seq![committed(meta)],
{
    lemma_run_opens_settled(initial(mode, prime), ActionView::Pull, r, 0, meta);
}

/// Under every strategy: where the rendering ends without failure, what
/// reaches the client is the head markup, every fragment in the order of
/// production, and the tail markup, whatever the metadata.
pub proof fn lemma_whole_document_is_sent(mode: SsrMode, prime: nat, r: Rendering)
    requires
        r.ending is Exhausted,
    ensures
        concat(sent(outcome(mode, prime, r))) == r.head + concat(r.chunks()) + r.tail,
{
    let m0 = initial(mode, prime);
    lemma_run_sends_owed(m0, ActionView::Pull, r, 0);
    assert(r.rest(0) =~= r.chunks());
    assert(concat(m0.held) =~= Seq::<char>::empty());
    assert(owed(m0, r, 0) =~= r.head + concat(r.chunks()) + r.tail);
}

/// Under every strategy: where rendering code never touches the metadata and
/// the rendering ends without failure, the response has status 200, no
/// header but the document's media type, and the whole document as its body.
pub proof fn lemma_untouched_rendering_yields_plain_document(
    mode: SsrMode,
    prime: nat,
    r: Rendering,
)
    requires
        r.ending is Exhausted,
        settled(r, untouched()),
    ensures
        openings(outcome(mode, prime, r)).len() == 1,
        openings(outcome(mode, prime, r))[0].status == 200,
        openings(outcome(mode, prime, r))[0].headers == seq![crate::assembler::html_line()],
        concat(sent(outcome(mode, prime, r))) == r.head + concat(r.chunks()) + r.tail,
{
    lemma_early_metadata_is_committed(mode, prime, r, untouched());
    lemma_whole_document_is_sent(mode, prime, r);
    crate::assembler::lemma_committed_untouched();
}

/// With the usual priming, a streamed response reads the metadata when the
/// first fragment is in hand and never again: where rendering code leaves the
/// metadata alone until its second fragment is out, the response has status
/// 200 and no header but the document's media type, whatever is set later and
/// however the rendering ends.
pub proof fn lemma_late_metadata_is_not_committed(mode: SsrMode, r: Rendering)
    requires
        mode.spec_streams(),
        r.produced.len() >= 2,
        r.produced[0].meta == untouched(),
        r.produced[1].meta == untouched(),
    ensures
        openings(outcome(mode, 1, r)).len() == 1,
        openings(outcome(mode, 1, r))[0].status == 200,
        openings(outcome(mode, 1, r))[0].headers == seq![crate::assembler::html_line()],
{
    lemma_streamed_response_opens_after_priming(mode, 1, r);
    crate::assembler::lemma_committed_untouched();
}

/// How the run of a document that goes out in one piece closes, once the
/// fragments have run out.
pub open spec fn closing(r: Rendering) -> Seq<ActionView> {
    match r.ending {
        Ending::Exhausted => seq![
            ActionView::BuildShell,
            ActionView::Respond(document(r.at_end, r.head, r.chunks(), r.tail)),
        ],
        Ending::Failed(d) => seq![ActionView::Respond(failure(d))],
        Ending::Disconnected => seq![ActionView::Abort],
    }
}

/// While a document that goes out in one piece is collected, the machine
/// only polls, once for each fragment that is still to come, and then closes.
pub proof fn lemma_collecting_only_polls(
    m: AssemblerView,
    pending: ActionView,
    r: Rendering,
    polls: nat,
)
    requires
        coherent(m, pending),
        m.phase is Priming,
        !m.mode.spec_streams(),
        polls <= r.produced.len(),
        m.held == r.chunks().take(polls as int),
    ensures
        run(m, pending, r, polls) == pulls((r.produced.len() - polls) as nat) + closing(r),
    decreases r.produced.len() - polls,
{
    let (m2, action, polls2) = after(m, pending, r, polls);
    assert(advances(r, m, polls, m2, polls2));
    let rest_run = run(m2, action, r, polls2);
    assert(run(m, pending, r, polls) =~= seq![action] + rest_run);
    if polls < r.produced.len() {
        let f = r.produced[polls as int].chunk;
        assert(r.chunks().take(polls + 1 as int) =~= r.chunks().take(polls as int).push(f));
        lemma_collecting_only_polls(m2, action, r, polls2);
        let k = (r.produced.len() - polls) as nat;
        assert(pulls(k) =~= seq![ActionView::Pull] + pulls((k - 1) as nat));
        assert(run(m, pending, r, polls) =~= pulls(k) + closing(r));
    } else {
        assert(pulls(0) =~= Seq::<ActionView>::empty());
        assert(r.chunks().take(polls as int) =~= r.chunks());
        match r.ending {
            Ending::Exhausted => {
                let (m3, last, polls3) = after(m2, action, r, polls2);
                assert(advances(r, m2, polls2, m3, polls3));
                assert(run(m3, last, r, polls3) =~= Seq::<ActionView>::empty());
                assert(rest_run =~= seq![last]);
                assert(run(m, pending, r, polls) =~= pulls(0) + closing(r));
            },
            _ => {
                assert(rest_run =~= Seq::<ActionView>::empty());
                assert(run(m, pending, r, polls) =~= pulls(0) + closing(r));
            },
        }
    }
}

/// A document that goes out in one piece sends nothing before the fragment
/// sequence has ended, however many fragments there are: the machine polls
/// once for every fragment, and only then closes, with the shell and the one
/// response where the rendering ended without failure. The metadata is read
/// as it stands at the end.
pub proof fn lemma_one_piece_waits_for_the_end(prime: nat, r: Rendering)
    ensures
        outcome(SsrMode::Async, prime, r) == pulls(r.produced.len()) + closing(r),
        sent(pulls(r.produced.len())) == Seq::<Seq<char>>::empty(),
{
    let m0 = initial(SsrMode::Async, prime);
    assert(r.chunks().take(0) =~= m0.held);
    lemma_collecting_only_polls(m0, ActionView::Pull, r, 0);
    lemma_pulls_send_nothing(r.produced.len());
}

/// Requests to poll hand nothing to the transport.
pub proof fn lemma_pulls_send_nothing(n: nat)
    ensures
        sent(pulls(n)) == Seq::<Seq<char>>::empty(),
    decreases n,
{
    if n > 0 {
        lemma_pulls_send_nothing((n - 1) as nat);
        assert(pulls(n).drop_first() =~= pulls((n - 1) as nat));
        assert(emits(pulls(n)[0]) =~= Seq::<Seq<char>>::empty());
        assert(sent(pulls(n)) =~= Seq::<Seq<char>>::empty());
    }
}

/// Under every strategy and however the rendering goes: the request ends,
/// and the render context is disposed of exactly once, by the last action,
/// after everything that this and the earlier actions hand to the transport.
pub proof fn lemma_context_is_disposed_once_at_the_end(mode: SsrMode, prime: nat, r: Rendering)
    ensures
        outcome(mode, prime, r).len() >= 1,
        disposes(outcome(mode, prime, r).last()),
        forall|i: int|
            0 <= i < outcome(mode, prime, r).len() - 1 ==> !disposes(
                #[trigger] outcome(mode, prime, r)[i],
            ),
{
    lemma_run_disposes_last(initial(mode, prime), ActionView::Pull, r, 0);
}

/// Under every strategy: where rendering code has turned the response into
/// a redirect by the time its first fragment is out, and the rendering ends
/// without failure, the response has the status that was set and carries
/// the `Location` header that was set.
pub proof fn lemma_early_redirect_is_committed(
    mode: SsrMode,
    prime: nat,
    r: Rendering,
    meta: ResponseOptionsView,
    target: Seq<char>,
)
    requires
        r.ending is Exhausted,
        settled(r, meta),
        meta.status == Some(crate::response::REDIRECT_STATUS),
        crate::headers::lookup(meta.headers, "location"@) == Some(target),
    ensures
        openings(outcome(mode, prime, r)).len() == 1,
        openings(outcome(mode, prime, r))[0].status == 302,
        crate::headers::lookup(openings(outcome(mode, prime, r))[0].headers, "location"@) == Some(
            target,
        ),
{
    lemma_early_metadata_is_committed(mode, prime, r, meta);
    reveal_strlit("location");
    reveal_strlit("content-type");
    assert("location"@.len() != "content-type"@.len());
    crate::assembler::lemma_committed_keeps_headers(meta, "location"@);
}

/// What the driver does for the actions, in order.
pub open spec fn trail(actions: Seq<ActionView>) -> Seq<Deed>
    decreases actions.len(),
{
    if actions.len() == 0 {
        Seq::empty()
    } else {
        deeds(actions[0]) + trail(actions.drop_first())
    }
}

/// Where only the last of some actions disposes, the driver hands over all
/// their chunks, in order, and then disposes.
pub proof fn lemma_trail_ends_with_disposal(actions: Seq<ActionView>)
    requires
        actions.len() >= 1,
        disposes(actions.last()),
        forall|i: int| 0 <= i < actions.len() - 1 ==> !disposes(#[trigger] actions[i]),
    ensures
        trail(actions) == sent(actions).map_values(|c: Seq<char>| Deed::Handed(c)).push(
            Deed::Disposed,
        ),
    decreases actions.len(),
{
    let wrap = |c: Seq<char>| Deed::Handed(c);
    let rest_actions = actions.drop_first();
    if actions.len() == 1 {
        assert(rest_actions =~= Seq::<ActionView>::empty());
        assert(trail(rest_actions) =~= Seq::<Deed>::empty());
        assert(sent(rest_actions) =~= Seq::<Seq<char>>::empty());
        assert(sent(actions) =~= emits(actions[0]));
        assert(trail(actions) =~= sent(actions).map_values(wrap).push(Deed::Disposed));
    } else {
        assert(rest_actions.last() == actions.last());
        assert forall|i: int| 0 <= i < rest_actions.len() - 1 implies !disposes(
            #[trigger] rest_actions[i],
        ) by {
            assert(rest_actions[i] == actions[i + 1]);
        }
        lemma_trail_ends_with_disposal(rest_actions);
        assert(!disposes(actions[0]));
        assert(trail(actions) =~= sent(actions).map_values(wrap).push(Deed::Disposed));
    }
}

/// Under every strategy and however the rendering goes: the render context
/// is disposed of exactly once, and that is the last thing that happens,
/// after every chunk has been handed to the transport.
pub proof fn lemma_disposal_comes_last(mode: SsrMode, prime: nat, r: Rendering)
    ensures
        trail(outcome(mode, prime, r)).len() >= 1,
        trail(outcome(mode, prime, r)).last() == Deed::Disposed,
        forall|i: int|
            0 <= i < trail(outcome(mode, prime, r)).len() - 1 ==> (#[trigger] trail(
                outcome(mode, prime, r),
            )[i]) is Handed,
{
    lemma_context_is_disposed_once_at_the_end(mode, prime, r);
    lemma_trail_ends_with_disposal(outcome(mode, prime, r));
}

/// A streamed response is opened without regard to what comes later: two
/// renderings with the same head markup that agree in their first fragments,
/// as many as are primed, and in the metadata after each of them, open the
/// response after the same actions and in the same way.
pub proof fn lemma_opening_waits_for_nothing_later(
    mode: SsrMode,
    prime: nat,
    r1: Rendering,
    r2: Rendering,
)
    requires
        mode.spec_streams(),
        r1.produced.len() >= primed(prime),
        r2.produced.len() >= primed(prime),
        r1.head == r2.head,
        r1.produced.take(primed(prime) as int) == r2.produced.take(primed(prime) as int),
    ensures
        outcome(mode, prime, r1).take(primed(prime) + 1 as int) == outcome(mode, prime, r2).take(
            primed(prime) + 1 as int,
        ),
        openings(outcome(mode, prime, r1)) == openings(outcome(mode, prime, r2)),
{
    let k = primed(prime);
    lemma_streamed_response_opens_after_priming(mode, prime, r1);
    lemma_streamed_response_opens_after_priming(mode, prime, r2);
    let a = r1.produced.take(k as int);
    let b = r2.produced.take(k as int);
    assert(a[k - 1] == b[k - 1]);
    assert(r1.chunks().take(k as int) =~= r2.chunks().take(k as int)) by {
        assert forall|i: int| 0 <= i < k implies r1.chunks()[i] == r2.chunks()[i] by {
            assert(a[i] == b[i]);
        }
    }
}

/// The chunks that are still to reach the client from state `m` on, where
/// the response streams and the rendering ends without failure.
pub open spec fn due(m: AssemblerView, r: Rendering, polls: nat) -> Seq<Seq<char>> {
    match m.phase {
        Phase::Priming | Phase::Shell => seq![r.head] + m.held + r.rest(polls) + seq![r.tail],
        Phase::Topping => m.held + r.rest(polls) + seq![m.tail],
        Phase::Streaming => r.rest(polls) + seq![m.tail],
        Phase::Done => Seq::empty(),
    }
}

/// A step of a streamed response hands over the first of the chunks that
/// were due and leaves the rest due.
pub proof fn lemma_step_keeps_due(m: AssemblerView, pending: ActionView, r: Rendering, polls: nat)
    requires
        coherent(m, pending),
        on_course(m, r, polls),
        m.mode.spec_streams(),
        m.phase != Phase::Done,
    ensures
        emits(after(m, pending, r, polls).1) + due(
            after(m, pending, r, polls).0,
            r,
            after(m, pending, r, polls).2,
        ) == due(m, r, polls),
        after(m, pending, r, polls).0.mode == m.mode,
{
    let (m2, action, polls2) = after(m, pending, r, polls);
    if polls < r.produced.len() {
        lemma_rest_unfold(r, polls);
    } else {
        lemma_rest_empty(r, polls);
        lemma_rest_empty(r, polls + 1);
    }
    assert(emits(action) + due(m2, r, polls2) =~= due(m, r, polls));
}

/// Where the response streams and the rendering ends without failure, each
/// fragment reaches the transport as a chunk of its own, in the order of
/// production, between the head markup and the tail markup.
pub proof fn lemma_run_sends_due(m: AssemblerView, pending: ActionView, r: Rendering, polls: nat)
    requires
        coherent(m, pending),
        on_course(m, r, polls),
        m.mode.spec_streams(),
    ensures
        sent(run(m, pending, r, polls)) == due(m, r, polls),
    decreases rank(m.phase), r.left(polls),
{
    if m.phase == Phase::Done {
        assert(run(m, pending, r, polls) =~= Seq::<ActionView>::empty());
    } else {
        let (m2, action, polls2) = after(m, pending, r, polls);
        lemma_step_keeps_owed(m, pending, r, polls);
        lemma_step_keeps_due(m, pending, r, polls);
        lemma_run_sends_due(m2, action, r, polls2);
        let rest_run = run(m2, action, r, polls2);
        assert(run(m, pending, r, polls) =~= seq![action] + rest_run);
        lemma_observe_first(action, rest_run);
    }
}

/// Under every streaming strategy: where the rendering ends without
/// failure, the transport is handed the head markup, then every fragment as
/// a chunk of its own in the order of production, then the tail markup.
pub proof fn lemma_streamed_chunks_are_the_fragments(mode: SsrMode, prime: nat, r: Rendering)
    requires
        mode.spec_streams(),
        r.ending is Exhausted,
    ensures
        sent(outcome(mode, prime, r)) == seq![r.head] + r.chunks() + seq![r.tail],
{
    let m0 = initial(mode, prime);
    lemma_run_sends_due(m0, ActionView::Pull, r, 0);
    assert(r.rest(0) =~= r.chunks());
    assert(due(m0, r, 0) =~= seq![r.head] + r.chunks() + seq![r.tail]);
}

} // verus!
