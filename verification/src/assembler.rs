//! The stream assembler: a state machine that decides, event by event, what
//! becomes of the fragments of one rendering and when the response metadata
//! is read.
//!
//! The machine does no waiting of its own. A driver performs each [`Action`]
//! and reports what came of it as a [`RenderEvent`], together with the
//! response metadata as it stands at that moment:
//!
//! * after `Pull`, `Open` and `Forward` it polls the fragment sequence once,
//!   when the transport is ready for more, and reports `Fragment`,
//!   `Exhausted` or `Failed`;
//! * after `BuildShell` it computes the document's head and tail markup and
//!   reports `Shell`;
//! * `Finish`, `Respond` and `Abort` end the request: the driver hands over
//!   what the action carries, then disposes of the render context;
//! * `Disconnected` may be reported at any time.
//!
//! The metadata is read once: when the response is opened. What rendering
//! code changes after that moment does not reach the client.

use crate::headers::{lookup, named, not_named, Headers, Line};
use crate::mode::SsrMode;
use crate::response::{effective_status, ResponseOptions, ResponseOptionsView};
use crate::text::{fold, is_name, is_value};
use vstd::prelude::*;

verus! {

/// The number of fragments of the rendering that are held back, behind the
/// head markup, before the response is opened, unless asked otherwise.
pub const DEFAULT_PRIME: usize = 1;

/// The status of the response that reports a failed rendering.
pub const FAILURE_STATUS: u16 = 500;

/// The texts of a sequence of strings.
pub open spec fn texts(v: Seq<String>) -> Seq<Seq<char>> {
    Seq::new(v.len(), |i: int| v[i]@)
}

/// The parts written one after the other.
pub open spec fn concat(parts: Seq<Seq<char>>) -> Seq<char>
    decreases parts.len(),
{
    if parts.len() == 0 {
        Seq::empty()
    } else {
        concat(parts.drop_last()) + parts.last()
    }
}

/// The header line that names the media type of a document.
pub open spec fn html_line() -> Line {
    ("content-type"@, "text/html"@)
}

/// The header line that names the media type of a failure report.
pub open spec fn plain_line() -> Line {
    ("content-type"@, "text/plain"@)
}

/// Status and headers of a response.
#[derive(Clone, Debug, PartialEq, Eq)]
pub struct ResponseHead {
    pub status: u16,
    pub headers: Headers,
}

/// Status and headers of a response as mathematics.
pub struct ResponseHeadView {
    pub status: u16,
    pub headers: Seq<Line>,
}

impl View for ResponseHead {
    type V = ResponseHeadView;

    open spec fn view(&self) -> ResponseHeadView {
        ResponseHeadView { status: self.status, headers: self.headers@ }
    }
}

/// A response that is sent in one piece.
#[derive(Clone, Debug, PartialEq, Eq)]
pub struct Response {
    pub head: ResponseHead,
    pub body: String,
}

/// A response in one piece as mathematics.
pub struct ResponseView {
    pub head: ResponseHeadView,
    pub body: Seq<char>,
}

impl View for Response {
    type V = ResponseView;

    open spec fn view(&self) -> ResponseView {
        ResponseView { head: self.head@, body: self.body@ }
    }
}

/// What the response opens with for metadata `meta`: the status that was
/// set, else 200, and the document's media type followed by the headers that
/// were set. The media type is fixed: a `Content-Type` that was set does not
/// go out.
pub open spec fn committed(meta: ResponseOptionsView) -> ResponseHeadView {
    ResponseHeadView {
        status: effective_status(meta),
        headers: seq![html_line()] + meta.headers.filter(not_named("content-type"@)),
    }
}

/// The response that reports a rendering that failed before anything was
/// sent: status 500 and the description as plain text.
pub open spec fn failure(description: Seq<char>) -> ResponseView {
    ResponseView {
        head: ResponseHeadView { status: FAILURE_STATUS, headers: seq![plain_line()] },
        body: description,
    }
}

/// The whole document in one response.
pub open spec fn document(
    meta: ResponseOptionsView,
    head: Seq<char>,
    body: Seq<Seq<char>>,
    tail: Seq<char>,
) -> ResponseView {
    ResponseView { head: committed(meta), body: head + concat(body) + tail }
}

/// What a driver reports to the machine.
#[derive(Clone, Debug, PartialEq, Eq)]
pub enum RenderEvent {
    /// The fragment sequence produced its next fragment.
    Fragment(String),
    /// The fragment sequence has ended.
    Exhausted,
    /// The fragment sequence failed, with a description.
    Failed(String),
    /// The document's head and tail markup.
    Shell { head: String, tail: String },
    /// The client has gone.
    Disconnected,
}

/// An event as mathematics.
pub enum EventView {
    Fragment(Seq<char>),
    Exhausted,
    Failed(Seq<char>),
    Shell { head: Seq<char>, tail: Seq<char> },
    Disconnected,
}

impl View for RenderEvent {
    type V = EventView;

    open spec fn view(&self) -> EventView {
        match self {
            RenderEvent::Fragment(f) => EventView::Fragment(f@),
            RenderEvent::Exhausted => EventView::Exhausted,
            RenderEvent::Failed(d) => EventView::Failed(d@),
            RenderEvent::Shell { head, tail } => EventView::Shell { head: head@, tail: tail@ },
            RenderEvent::Disconnected => EventView::Disconnected,
        }
    }
}

/// What the machine asks of its driver.
#[derive(Clone, Debug, PartialEq, Eq)]
pub enum Action {
    /// Poll the fragment sequence.
    Pull,
    /// Compute the document's head and tail markup.
    BuildShell,
    /// Open the response with this status and these headers and send the
    /// chunks; then poll the fragment sequence.
    Open { head: ResponseHead, chunks: Vec<String> },
    /// Send the chunk; then poll the fragment sequence.
    Forward(String),
    /// Send the last chunk, dispose of the render context, close the stream.
    Finish(String),
    /// Send this response in one piece and dispose of the render context.
    Respond(Response),
    /// Dispose of the render context and break the stream off.
    Abort,
    /// The request is over: nothing is left to do.
    Halt,
}

/// An action as mathematics.
pub enum ActionView {
    Pull,
    BuildShell,
    Open { head: ResponseHeadView, chunks: Seq<Seq<char>> },
    Forward(Seq<char>),
    Finish(Seq<char>),
    Respond(ResponseView),
    Abort,
    Halt,
}

impl View for Action {
    type V = ActionView;

    open spec fn view(&self) -> ActionView {
        match self {
            Action::Pull => ActionView::Pull,
            Action::BuildShell => ActionView::BuildShell,
            Action::Open { head, chunks } => ActionView::Open {
                head: head@,
                chunks: texts(chunks@),
            },
            Action::Forward(c) => ActionView::Forward(c@),
            Action::Finish(c) => ActionView::Finish(c@),
            Action::Respond(r) => ActionView::Respond(r@),
            Action::Abort => ActionView::Abort,
            Action::Halt => ActionView::Halt,
        }
    }
}

/// Where a request stands.
#[derive(Clone, Copy, Debug, PartialEq, Eq, Structural)]
pub enum Phase {
    /// Fragments are being forced before the shell is asked for: one where
    /// the response streams, all of them where it does not.
    Priming,
    /// The shell has been asked for.
    Shell,
    /// The shell is in hand and more fragments are being forced before the
    /// response is opened.
    Topping,
    /// The response is open and fragments are passed on as they come.
    Streaming,
    /// The request is over.
    Done,
}

/// The state of the machine as mathematics.
pub struct AssemblerView {
    pub mode: SsrMode,
    pub prime: nat,
    pub phase: Phase,
    pub held: Seq<Seq<char>>,
    pub tail: Seq<char>,
}

/// The machine before its first event. Its driver starts by polling the
/// fragment sequence.
pub open spec fn initial(mode: SsrMode, prime: nat) -> AssemblerView {
    AssemblerView { mode, prime, phase: Phase::Priming, held: Seq::empty(), tail: Seq::empty() }
}

/// The machine at rest after the request.
pub open spec fn done(m: AssemblerView) -> AssemblerView {
    AssemblerView { phase: Phase::Done, held: Seq::empty(), tail: Seq::empty(), ..m }
}

/// The machine after the response has been opened.
pub open spec fn streaming(m: AssemblerView) -> AssemblerView {
    AssemblerView { phase: Phase::Streaming, held: Seq::empty(), ..m }
}

/// State and action after `event` while fragments are forced ahead of the
/// shell.
pub open spec fn next_priming(m: AssemblerView, event: EventView) -> (AssemblerView, ActionView) {
    match event {
        EventView::Fragment(f) => if m.mode.spec_streams() {
            (AssemblerView { phase: Phase::Shell, held: m.held.push(f), ..m }, ActionView::BuildShell)
        } else {
            (AssemblerView { held: m.held.push(f), ..m }, ActionView::Pull)
        },
        EventView::Exhausted => (AssemblerView { phase: Phase::Shell, ..m }, ActionView::BuildShell),
        EventView::Failed(d) => (done(m), ActionView::Respond(failure(d))),
        EventView::Disconnected => (done(m), ActionView::Abort),
        EventView::Shell { .. } => (m, ActionView::Pull),
    }
}

/// State and action after `event` while the shell is awaited. Here the
/// metadata is read where the response does not stream, and where enough
/// fragments are held already.
pub open spec fn next_shell(m: AssemblerView, event: EventView, meta: ResponseOptionsView) -> (
    AssemblerView,
    ActionView,
) {
    match event {
        EventView::Shell { head, tail } => if !m.mode.spec_streams() {
            (done(m), ActionView::Respond(document(meta, head, m.held, tail)))
        } else if m.held.len() >= m.prime {
            (
                AssemblerView { tail, ..streaming(m) },
                ActionView::Open { head: committed(meta), chunks: seq![head] + m.held },
            )
        } else {
            (
                AssemblerView { phase: Phase::Topping, held: seq![head] + m.held, tail, ..m },
                ActionView::Pull,
            )
        },
        EventView::Disconnected => (done(m), ActionView::Abort),
        _ => (m, ActionView::BuildShell),
    }
}

/// State and action after `event` while fragments are forced behind the
/// shell. Here the metadata is read once enough fragments are held, or the
/// sequence has ended.
pub open spec fn next_topping(m: AssemblerView, event: EventView, meta: ResponseOptionsView) -> (
    AssemblerView,
    ActionView,
) {
    match event {
        EventView::Fragment(f) => if m.held.len() >= m.prime {
            (streaming(m), ActionView::Open { head: committed(meta), chunks: m.held.push(f) })
        } else {
            (AssemblerView { held: m.held.push(f), ..m }, ActionView::Pull)
        },
        EventView::Exhausted => (
            streaming(m),
            ActionView::Open { head: committed(meta), chunks: m.held },
        ),
        EventView::Failed(d) => (done(m), ActionView::Respond(failure(d))),
        EventView::Disconnected => (done(m), ActionView::Abort),
        EventView::Shell { .. } => (m, ActionView::Pull),
    }
}

/// State and action after `event` once the response is open. The metadata
/// plays no part.
pub open spec fn next_streaming(m: AssemblerView, event: EventView) -> (AssemblerView, ActionView) {
    match event {
        EventView::Fragment(f) => (m, ActionView::Forward(f)),
        EventView::Exhausted => (done(m), ActionView::Finish(m.tail)),
        EventView::Failed(_) => (done(m), ActionView::Abort),
        EventView::Disconnected => (done(m), ActionView::Abort),
        EventView::Shell { .. } => (m, ActionView::Pull),
    }
}

/// State and action after `event`, reported while the metadata stands at
/// `meta`. An event that answers no request of the machine changes nothing
/// and has the request repeated.
pub open spec fn next(m: AssemblerView, event: EventView, meta: ResponseOptionsView) -> (
    AssemblerView,
    ActionView,
) {
    match m.phase {
        Phase::Priming => next_priming(m, event),
        Phase::Shell => next_shell(m, event, meta),
        Phase::Topping => next_topping(m, event, meta),
        Phase::Streaming => next_streaming(m, event),
        Phase::Done => (m, ActionView::Halt),
    }
}

/// The chunks that an action hands to the transport, in order.
pub open spec fn emits(a: ActionView) -> Seq<Seq<char>> {
    match a {
        ActionView::Open { chunks, .. } => chunks,
        ActionView::Forward(c) => seq![c],
        ActionView::Finish(c) => seq![c],
        ActionView::Respond(r) => seq![r.body],
        _ => Seq::empty(),
    }
}

/// The status and headers that an action fixes for the response, if any.
pub open spec fn opens(a: ActionView) -> Option<ResponseHeadView> {
    match a {
        ActionView::Open { head, .. } => Some(head),
        ActionView::Respond(r) => Some(r.head),
        _ => None,
    }
}

/// Whether an action has the render context disposed of, after what it hands
/// to the transport.
pub open spec fn disposes(a: ActionView) -> bool {
    a is Finish || a is Respond || a is Abort
}

/// One thing that a driver does for the client or to the render context.
pub enum Deed {
    /// It hands a chunk to the transport.
    Handed(Seq<char>),
    /// It disposes of the render context.
    Disposed,
}

/// What a driver does for an action, in order: it hands over the chunks
/// that the action carries, and then, where the action ends the request,
/// disposes of the render context.
pub open spec fn deeds(a: ActionView) -> Seq<Deed> {
    let handed = emits(a).map_values(|c: Seq<char>| Deed::Handed(c));
    if disposes(a) {
        handed.push(Deed::Disposed)
    } else {
        handed
    }
}

/// Whether an action leaves the driver nothing to report.
pub open spec fn is_final(a: ActionView) -> bool {
    disposes(a) || a is Halt
}

/// Writing parts one after the other is the same in one go or in two.
pub proof fn lemma_concat_add(a: Seq<Seq<char>>, b: Seq<Seq<char>>)
    ensures
        concat(a + b) == concat(a) + concat(b),
    decreases b.len(),
{
    if b.len() == 0 {
        assert(a + b =~= a);
        assert(concat(a) + concat(b) =~= concat(a));
    } else {
        lemma_concat_add(a, b.drop_last());
        assert((a + b).drop_last() =~= a + b.drop_last());
        assert((a + b).last() == b.last());
        assert(concat(a + b) =~= concat(a) + concat(b));
    }
}

/// One part written alone is that part.
pub proof fn lemma_concat_one(a: Seq<char>)
    ensures
        concat(seq![a]) == a,
{
    reveal_with_fuel(concat, 2);
    assert(seq![a].drop_last() =~= Seq::<Seq<char>>::empty());
    assert(concat(seq![a]) =~= a);
}

/// The two media type lines are header lines, their name in lower case.
pub proof fn lemma_media_type_lines()
    ensures
        is_name("content-type"@),
        fold("content-type"@) == "content-type"@,
        is_value("text/html"@),
        is_value("text/plain"@),
{
    reveal_strlit("content-type");
    reveal_strlit("text/html");
    reveal_strlit("text/plain");
    let n = "content-type"@;
    assert(n =~= seq!['c', 'o', 'n', 't', 'e', 'n', 't', '-', 't', 'y', 'p', 'e']);
    assert(fold(n) =~= n);
    assert("text/html"@ =~= seq!['t', 'e', 'x', 't', '/', 'h', 't', 'm', 'l']);
    assert("text/plain"@ =~= seq!['t', 'e', 'x', 't', '/', 'p', 'l', 'a', 'i', 'n']);
}

/// What the response opens with carries every header that was set: a lookup
/// under any name but that of the media type reads what it reads in the
/// metadata.
pub proof fn lemma_committed_keeps_headers(meta: ResponseOptionsView, key: Seq<char>)
    requires
        key != "content-type"@,
    ensures
        lookup(committed(meta).headers, key) == lookup(meta.headers, key),
        committed(meta).status == effective_status(meta),
{
    let first = seq![html_line()];
    let kept = meta.headers.filter(not_named("content-type"@));
    let all = committed(meta).headers;
    assert(all =~= first + kept);
    Seq::filter_distributes_over_add(first, kept, named(key));
    assert forall|i: int| 0 <= i < first.len() implies !named(key)(#[trigger] first[i]) by {}
    crate::headers::lemma_filter_none(first, named(key));
    crate::headers::lemma_filter_other(meta.headers, "content-type"@, key);
    assert(all.filter(named(key)) =~= meta.headers.filter(named(key)));
    crate::headers::lemma_filter_absent(all, key);
    crate::headers::lemma_filter_absent(meta.headers, key);
}

/// The media type of a document is fixed: whatever was set, a lookup of
/// `Content-Type` in what the response opens with reads `text/html`.
pub proof fn lemma_committed_media_type(meta: ResponseOptionsView)
    ensures
        lookup(committed(meta).headers, "content-type"@) == Some("text/html"@),
{
    let key = "content-type"@;
    let first = seq![html_line()];
    let kept = meta.headers.filter(not_named(key));
    let all = committed(meta).headers;
    assert(all =~= first + kept);
    Seq::filter_distributes_over_add(first, kept, named(key));
    assert forall|i: int| 0 <= i < kept.len() implies !named(key)(#[trigger] kept[i]) by {
        meta.headers.lemma_filter_pred(not_named(key), i);
    }
    crate::headers::lemma_filter_none(kept, named(key));
    crate::sequences::lemma_filter_push(Seq::<Line>::empty(), html_line(), named(key));
    assert(Seq::<Line>::empty().push(html_line()) =~= first);
    assert(Seq::<Line>::empty().filter(named(key)) =~= Seq::<Line>::empty()) by {
        reveal(Seq::filter);
    }
    assert(all.filter(named(key)) =~= first);
    assert(all[0] == html_line());
    assert(crate::headers::has_name(all, key));
    assert(crate::headers::values_of(all, key) =~= seq!["text/html"@]);
}

/// Where nothing was set, the response opens with status 200 and no header
/// but the document's media type.
pub proof fn lemma_committed_untouched()
    ensures
        committed(crate::response::untouched()).status == 200,
        committed(crate::response::untouched()).headers == seq![html_line()],
{
    reveal(Seq::filter);
    assert(Seq::<Line>::empty().filter(not_named("content-type"@)) =~= Seq::<Line>::empty());
    assert(committed(crate::response::untouched()).headers =~= seq![html_line()]);
}

/// The machine that assembles the response of one request.
#[derive(Clone, Debug, PartialEq, Eq)]
pub struct StreamAssembler {
    mode: SsrMode,
    prime: usize,
    phase: Phase,
    held: Vec<String>,
    tail: String,
}

impl View for StreamAssembler {
    type V = AssemblerView;

    closed spec fn view(&self) -> AssemblerView {
        AssemblerView {
            mode: self.mode,
            prime: self.prime as nat,
            phase: self.phase,
            held: texts(self.held@),
            tail: self.tail@,
        }
    }
}

/// The text of all of `parts`, one after the other, behind `head` and before
/// `tail`.
pub fn join_document(head: &str, parts: &Vec<String>, tail: &str) -> (out: String)
    ensures
        out@ == head@ + concat(texts(parts@)) + tail@,
{
    let mut out = String::new();
    out.append(head);
    let n: usize = parts.len();
    let mut i: usize = 0;
    assert(texts(parts@).take(0) =~= Seq::<Seq<char>>::empty());
    while i < n
        invariant
            n == parts.len(),
            i <= n,
            out@ == head@ + concat(texts(parts@).take(i as int)),
        decreases n - i,
    {
        out.append(parts[i].as_str());
        proof {
            let all = texts(parts@);
            assert(all.take(i + 1).drop_last() =~= all.take(i as int));
            assert(all.take(i + 1).last() == parts[i as int]@);
        }
        i = i + 1;
    }
    assert(texts(parts@).take(n as int) =~= texts(parts@));
    out.append(tail);
    out
}

/// Status and headers for a document, read from `meta` now.
pub fn commit(meta: &ResponseOptions) -> (head: ResponseHead)
    ensures
        head@ == committed(meta@),
{
    let mut headers = Headers::new();
    proof {
        lemma_media_type_lines();
    }
    let placed = headers.append("content-type", "text/html");
    assert(placed is Ok);
    headers.extend_without(&meta.headers, "content-type");
    assert(headers@ =~= seq![html_line()] + meta.headers@.filter(not_named("content-type"@)));
    ResponseHead { status: meta.status_or_default(), headers }
}

/// The response that reports a rendering that failed before anything was
/// sent.
pub fn failure_response(description: String) -> (r: Response)
    ensures
        r@ == failure(description@),
{
    let mut headers = Headers::new();
    proof {
        lemma_media_type_lines();
    }
    let placed = headers.append("content-type", "text/plain");
    assert(placed is Ok);
    assert(headers@ =~= seq![plain_line()]);
    Response { head: ResponseHead { status: FAILURE_STATUS, headers }, body: description }
}

impl StreamAssembler {
    /// A machine for a route of the given strategy, with the usual priming:
    /// the response is opened once the head markup and one fragment are in
    /// hand.
    pub fn new(mode: SsrMode) -> (a: StreamAssembler)
        ensures
            a@ == initial(mode, DEFAULT_PRIME as nat),
    {
        StreamAssembler::with_priming(mode, DEFAULT_PRIME)
    }

    /// A machine that holds back `prime` fragments, behind the head markup,
    /// before it opens a streamed response. The first fragment is always
    /// forced, so 0 is as good as 1.
    pub fn with_priming(mode: SsrMode, prime: usize) -> (a: StreamAssembler)
        ensures
            a@ == initial(mode, prime as nat),
    {
        let a = StreamAssembler {
            mode,
            prime,
            phase: Phase::Priming,
            held: Vec::new(),
            tail: String::new(),
        };
        assert(texts(a.held@) =~= Seq::<Seq<char>>::empty());
        a
    }

    /// The strategy of the route.
    pub fn mode(&self) -> (mode: SsrMode)
        ensures
            mode == self@.mode,
    {
        self.mode
    }

    /// Where the request stands.
    pub fn phase(&self) -> (phase: Phase)
        ensures
            phase == self@.phase,
    {
        self.phase
    }

    /// Whether the request is over.
    pub fn is_done(&self) -> (b: bool)
        ensures
            b == (self@.phase == Phase::Done),
    {
        self.phase == Phase::Done
    }

    fn finish(&mut self)
        ensures
            final(self)@ == done(old(self)@),
    {
        self.phase = Phase::Done;
        self.held = Vec::new();
        self.tail = String::new();
        assert(texts(self.held@) =~= Seq::<Seq<char>>::empty());
    }

    fn take_held(&mut self) -> (held: Vec<String>)
        ensures
            texts(held@) == old(self)@.held,
            final(self)@ == (AssemblerView { held: Seq::empty(), ..old(self)@ }),
    {
        let mut held: Vec<String> = Vec::new();
        core::mem::swap(&mut self.held, &mut held);
        assert(texts(self.held@) =~= Seq::<Seq<char>>::empty());
        held
    }

    fn hold(&mut self, fragment: String)
        ensures
            final(self)@ == (AssemblerView {
                held: old(self)@.held.push(fragment@),
                ..old(self)@
            }),
    {
        let ghost before = texts(self.held@);
        self.held.push(fragment);
        assert(texts(self.held@) =~= before.push(fragment@));
    }

    fn open(&mut self, meta: &ResponseOptions) -> (action: Action)
        ensures
            final(self)@ == streaming(old(self)@),
            action@ == (ActionView::Open { head: committed(meta@), chunks: old(self)@.held }),
    {
        let chunks = self.take_held();
        self.phase = Phase::Streaming;
        Action::Open { head: commit(meta), chunks }
    }

    /// Takes one event, reported while the response metadata stands at
    /// `meta`, and says what to do next.
    pub fn step(&mut self, event: RenderEvent, meta: &ResponseOptions) -> (action: Action)
        ensures
            (final(self)@, action@) == next(old(self)@, event@, meta@),
    {
        match self.phase {
            Phase::Priming => match event {
                RenderEvent::Fragment(f) => {
                    self.hold(f);
                    if self.mode.streams() {
                        self.phase = Phase::Shell;
                        Action::BuildShell
                    } else {
                        Action::Pull
                    }
                },
                RenderEvent::Exhausted => {
                    self.phase = Phase::Shell;
                    Action::BuildShell
                },
                RenderEvent::Failed(d) => {
                    self.finish();
                    Action::Respond(failure_response(d))
                },
                RenderEvent::Disconnected => {
                    self.finish();
                    Action::Abort
                },
                RenderEvent::Shell { .. } => Action::Pull,
            },
            Phase::Shell => match event {
                RenderEvent::Shell { head, tail } => {
                    if !self.mode.streams() {
                        let body = join_document(head.as_str(), &self.held, tail.as_str());
                        self.finish();
                        Action::Respond(Response { head: commit(meta), body })
                    } else {
                        let ghost before = texts(self.held@);
                        self.held.insert(0, head);
                        assert(texts(self.held@) =~= seq![head@] + before);
                        assert(self.held.len() == before.len() + 1);
                        self.tail = tail;
                        if self.held.len() > self.prime {
                            self.open(meta)
                        } else {
                            self.phase = Phase::Topping;
                            Action::Pull
                        }
                    }
                },
                RenderEvent::Disconnected => {
                    self.finish();
                    Action::Abort
                },
                _ => Action::BuildShell,
            },
            Phase::Topping => match event {
                RenderEvent::Fragment(f) => {
                    let ghost before = texts(self.held@);
                    self.hold(f);
                    assert(texts(self.held@).len() == before.len() + 1);
                    if self.held.len() > self.prime {
                        self.open(meta)
                    } else {
                        Action::Pull
                    }
                },
                RenderEvent::Exhausted => self.open(meta),
                RenderEvent::Failed(d) => {
                    self.finish();
                    Action::Respond(failure_response(d))
                },
                RenderEvent::Disconnected => {
                    self.finish();
                    Action::Abort
                },
                RenderEvent::Shell { .. } => Action::Pull,
            },
            Phase::Streaming => match event {
                RenderEvent::Fragment(f) => Action::Forward(f),
                RenderEvent::Exhausted => {
                    let mut tail = String::new();
                    core::mem::swap(&mut self.tail, &mut tail);
                    self.finish();
                    Action::Finish(tail)
                },
                RenderEvent::Failed(_) => {
                    self.finish();
                    Action::Abort
                },
                RenderEvent::Disconnected => {
                    self.finish();
                    Action::Abort
                },
                RenderEvent::Shell { .. } => Action::Pull,
            },
            Phase::Done => Action::Halt,
        }
    }
}

} // verus!
