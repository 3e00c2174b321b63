use leptos_cloudflare::assembler::DEFAULT_PRIME;
use leptos_cloudflare::{
    redirect, Action, Phase, RenderEvent, ResponseHead, ResponseOptions, SsrMode, StreamAssembler,
};

const HEAD: &str = "<!doc-head>";
const TAIL: &str = "<!doc-tail>";

/// What rendering code does to the metadata while it produces one fragment.
type Touch = fn(&mut ResponseOptions);

fn leave(_: &mut ResponseOptions) {}

fn to_login(meta: &mut ResponseOptions) {
    redirect(meta, "/login").unwrap();
}

fn teapot(meta: &mut ResponseOptions) {
    meta.status = Some(418);
    meta.insert_header("X-Late", "yes").unwrap();
}

fn as_json(meta: &mut ResponseOptions) {
    meta.insert_header("Content-Type", "application/json").unwrap();
    meta.append_header("content-type", "text/plain").unwrap();
    meta.append_header("X-Kept", "1").unwrap();
}

fn unset(meta: &mut ResponseOptions) {
    meta.status = None;
}

enum End {
    Exhausted,
    Failed(&'static str),
    Disconnected,
}

/// Plays the driver: performs each action against a rendering that hands out
/// `fragments`, each after its touch of the metadata, and then ends.
fn drive(
    mode: SsrMode,
    prime: usize,
    fragments: &[(&str, Touch)],
    end: End,
    at_end: Touch,
) -> Vec<Action> {
    let mut meta = ResponseOptions::default();
    let mut machine = StreamAssembler::with_priming(mode, prime);
    let mut actions = Vec::new();
    let mut pending = Action::Pull;
    let mut polls = 0;
    loop {
        let event = match pending {
            Action::Pull | Action::Open { .. } | Action::Forward(_) => {
                let event = if polls < fragments.len() {
                    (fragments[polls].1)(&mut meta);
                    RenderEvent::Fragment(fragments[polls].0.to_string())
                } else {
                    if polls == fragments.len() {
                        at_end(&mut meta);
                    }
                    match end {
                        End::Exhausted => RenderEvent::Exhausted,
                        End::Failed(d) => RenderEvent::Failed(d.to_string()),
                        End::Disconnected => RenderEvent::Disconnected,
                    }
                };
                polls += 1;
                event
            }
            Action::BuildShell => RenderEvent::Shell { head: HEAD.to_string(), tail: TAIL.to_string() },
            _ => break,
        };
        pending = machine.step(event, &meta);
        actions.push(pending.clone());
    }
    assert!(machine.is_done());
    actions
}

fn chunks(actions: &[Action]) -> Vec<String> {
    let mut out = Vec::new();
    for a in actions {
        match a {
            Action::Open { chunks, .. } => out.extend(chunks.iter().cloned()),
            Action::Forward(c) | Action::Finish(c) => out.push(c.clone()),
            Action::Respond(r) => out.push(r.body.clone()),
            _ => {}
        }
    }
    out
}

fn body(actions: &[Action]) -> String {
    chunks(actions).concat()
}

fn openings(actions: &[Action]) -> Vec<ResponseHead> {
    let mut out = Vec::new();
    for a in actions {
        match a {
            Action::Open { head, .. } => out.push(head.clone()),
            Action::Respond(r) => out.push(r.head.clone()),
            _ => {}
        }
    }
    out
}

fn lines(head: &ResponseHead) -> Vec<(String, String)> {
    head.headers.entries().iter().map(|e| (e.name.clone(), e.value.clone())).collect()
}

fn line(name: &str, value: &str) -> (String, String) {
    (name.to_string(), value.to_string())
}

fn disposes(a: &Action) -> bool {
    matches!(a, Action::Finish(_) | Action::Respond(_) | Action::Abort)
}

const ALL: [SsrMode; 4] =
    [SsrMode::OutOfOrder, SsrMode::PartiallyBlocked, SsrMode::InOrder, SsrMode::Async];
const STREAMING: [SsrMode; 3] = [SsrMode::OutOfOrder, SsrMode::PartiallyBlocked, SsrMode::InOrder];

#[test]
fn untouched_rendering_yields_200_and_the_whole_document() {
    let fragments: [(&str, Touch); 3] = [("<a>", leave), ("<b>", leave), ("<c>", leave)];
    for mode in ALL {
        let actions = drive(mode, DEFAULT_PRIME, &fragments, End::Exhausted, leave);
        let opened = openings(&actions);
        assert_eq!(opened.len(), 1);
        assert_eq!(opened[0].status, 200);
        assert_eq!(lines(&opened[0]), vec![line("content-type", "text/html")]);
        assert_eq!(body(&actions), "<!doc-head><a><b><c><!doc-tail>");
    }
}

#[test]
fn streamed_fragments_leave_one_by_one_in_order() {
    let fragments: [(&str, Touch); 3] = [("<a>", leave), ("<b>", leave), ("<c>", leave)];
    for mode in STREAMING {
        let actions = drive(mode, DEFAULT_PRIME, &fragments, End::Exhausted, leave);
        assert_eq!(chunks(&actions), vec![HEAD, "<a>", "<b>", "<c>", TAIL]);
        assert_eq!(actions.len(), 5);
        assert_eq!(actions[0], Action::BuildShell);
        assert!(matches!(&actions[1], Action::Open { chunks, .. } if *chunks == vec![HEAD, "<a>"]));
        assert_eq!(actions[2], Action::Forward("<b>".to_string()));
        assert_eq!(actions[3], Action::Forward("<c>".to_string()));
        assert_eq!(actions[4], Action::Finish(TAIL.to_string()));
    }
}

#[test]
fn single_fragment_rendering_is_whole() {
    let fragments: [(&str, Touch); 1] = [("<only>", leave)];
    for mode in ALL {
        let actions = drive(mode, DEFAULT_PRIME, &fragments, End::Exhausted, leave);
        assert_eq!(body(&actions), "<!doc-head><only><!doc-tail>");
        assert_eq!(openings(&actions)[0].status, 200);
    }
}

#[test]
fn redirect_before_first_fragment_is_committed() {
    let fragments: [(&str, Touch); 2] = [("<a>", to_login), ("<b>", leave)];
    for mode in ALL {
        let actions = drive(mode, DEFAULT_PRIME, &fragments, End::Exhausted, leave);
        let opened = openings(&actions);
        assert_eq!(opened.len(), 1);
        assert_eq!(opened[0].status, 302);
        assert_eq!(opened[0].headers.get("Location"), Some("/login".to_string()));
        assert_eq!(
            lines(&opened[0]),
            vec![line("content-type", "text/html"), line("location", "/login")]
        );
    }
}

#[test]
fn mutation_after_second_fragment_is_not_committed_when_streaming() {
    let fragments: [(&str, Touch); 3] = [("<a>", leave), ("<b>", leave), ("<c>", teapot)];
    for mode in STREAMING {
        let actions = drive(mode, DEFAULT_PRIME, &fragments, End::Exhausted, leave);
        let opened = openings(&actions);
        assert_eq!(opened.len(), 1);
        assert_eq!(opened[0].status, 200);
        assert_eq!(lines(&opened[0]), vec![line("content-type", "text/html")]);
        assert_eq!(body(&actions), "<!doc-head><a><b><c><!doc-tail>");
    }
}

#[test]
fn mutation_with_second_fragment_is_not_committed_when_streaming() {
    let fragments: [(&str, Touch); 2] = [("<a>", leave), ("<b>", teapot)];
    for mode in STREAMING {
        let actions = drive(mode, DEFAULT_PRIME, &fragments, End::Exhausted, leave);
        assert_eq!(openings(&actions)[0].status, 200);
        assert_eq!(lines(&openings(&actions)[0]), vec![line("content-type", "text/html")]);
    }
}

#[test]
fn one_piece_response_reads_the_metadata_at_the_end() {
    let fragments: [(&str, Touch); 3] = [("<a>", leave), ("<b>", leave), ("<c>", teapot)];
    let actions = drive(SsrMode::Async, DEFAULT_PRIME, &fragments, End::Exhausted, leave);
    let opened = openings(&actions);
    assert_eq!(opened[0].status, 418);
    assert_eq!(lines(&opened[0]), vec![line("content-type", "text/html"), line("x-late", "yes")]);
    let late = drive(SsrMode::Async, DEFAULT_PRIME, &fragments[..2], End::Exhausted, teapot);
    assert_eq!(openings(&late)[0].status, 418);
}

#[test]
fn unset_status_goes_out_as_200() {
    let fragments: [(&str, Touch); 1] = [("<a>", unset)];
    for mode in ALL {
        let actions = drive(mode, DEFAULT_PRIME, &fragments, End::Exhausted, leave);
        assert_eq!(openings(&actions)[0].status, 200);
    }
}

#[test]
fn one_piece_response_sends_nothing_before_the_end() {
    let fragments: [(&str, Touch); 4] = [("1", leave), ("2", leave), ("3", leave), ("4", leave)];
    let actions = drive(SsrMode::Async, DEFAULT_PRIME, &fragments, End::Exhausted, leave);
    assert_eq!(actions.len(), 6);
    for a in &actions[..4] {
        assert_eq!(*a, Action::Pull);
    }
    assert_eq!(actions[4], Action::BuildShell);
    match &actions[5] {
        Action::Respond(r) => {
            assert_eq!(r.body, "<!doc-head>1234<!doc-tail>");
            assert_eq!(r.head.status, 200);
        }
        other => panic!("unexpected {:?}", other),
    }
}

#[test]
fn streamed_response_opens_after_the_first_fragment() {
    let mut machine = StreamAssembler::new(SsrMode::InOrder);
    let meta = ResponseOptions::default();
    assert_eq!(machine.phase(), Phase::Priming);
    assert_eq!(machine.mode(), SsrMode::InOrder);
    let a = machine.step(RenderEvent::Fragment("<a>".to_string()), &meta);
    assert_eq!(a, Action::BuildShell);
    assert_eq!(machine.phase(), Phase::Shell);
    let b = machine
        .step(RenderEvent::Shell { head: HEAD.to_string(), tail: TAIL.to_string() }, &meta);
    match b {
        Action::Open { head, chunks } => {
            assert_eq!(head.status, 200);
            assert_eq!(chunks, vec![HEAD.to_string(), "<a>".to_string()]);
        }
        other => panic!("unexpected {:?}", other),
    }
    assert_eq!(machine.phase(), Phase::Streaming);
    assert!(!machine.is_done());
}

#[test]
fn context_is_disposed_once_and_last() {
    let fragments: [(&str, Touch); 3] = [("<a>", leave), ("<b>", leave), ("<c>", leave)];
    for mode in ALL {
        for n in 0..=3 {
            let ends = [End::Exhausted, End::Failed("boom"), End::Disconnected];
            for end in ends {
                let actions = drive(mode, DEFAULT_PRIME, &fragments[..n], end, leave);
                let count = actions.iter().filter(|a| disposes(a)).count();
                assert_eq!(count, 1);
                assert!(disposes(actions.last().unwrap()));
            }
        }
    }
}

#[test]
fn finished_machine_halts() {
    let meta = ResponseOptions::default();
    let mut machine = StreamAssembler::new(SsrMode::OutOfOrder);
    assert_eq!(machine.step(RenderEvent::Disconnected, &meta), Action::Abort);
    assert!(machine.is_done());
    assert_eq!(machine.step(RenderEvent::Fragment("x".to_string()), &meta), Action::Halt);
    assert_eq!(machine.step(RenderEvent::Exhausted, &meta), Action::Halt);
    assert_eq!(
        machine.step(RenderEvent::Shell { head: HEAD.to_string(), tail: TAIL.to_string() }, &meta),
        Action::Halt
    );
    assert_eq!(machine.phase(), Phase::Done);
}

#[test]
fn failure_before_priming_becomes_an_error_response() {
    for mode in ALL {
        let actions = drive(mode, DEFAULT_PRIME, &[], End::Failed("render failed"), leave);
        assert_eq!(actions.len(), 1);
        match &actions[0] {
            Action::Respond(r) => {
                assert_eq!(r.head.status, 500);
                assert_eq!(lines(&r.head), vec![line("content-type", "text/plain")]);
                assert_eq!(r.body, "render failed");
            }
            other => panic!("unexpected {:?}", other),
        }
    }
}

#[test]
fn failure_while_collecting_becomes_an_error_response() {
    let fragments: [(&str, Touch); 2] = [("<a>", to_login), ("<b>", leave)];
    let actions = drive(SsrMode::Async, DEFAULT_PRIME, &fragments, End::Failed("late"), leave);
    assert_eq!(actions.len(), 3);
    match &actions[2] {
        Action::Respond(r) => {
            assert_eq!(r.head.status, 500);
            assert_eq!(r.body, "late");
        }
        other => panic!("unexpected {:?}", other),
    }
}

#[test]
fn failure_after_opening_truncates() {
    let fragments: [(&str, Touch); 2] = [("<a>", leave), ("<b>", leave)];
    for mode in STREAMING {
        let actions = drive(mode, DEFAULT_PRIME, &fragments, End::Failed("broken"), leave);
        assert_eq!(chunks(&actions), vec![HEAD, "<a>", "<b>"]);
        assert_eq!(*actions.last().unwrap(), Action::Abort);
        assert_eq!(openings(&actions).len(), 1);
        assert_eq!(openings(&actions)[0].status, 200);
    }
}

#[test]
fn disconnect_aborts_in_every_phase() {
    let meta = ResponseOptions::default();
    let shell = || RenderEvent::Shell { head: HEAD.to_string(), tail: TAIL.to_string() };
    let frag = || RenderEvent::Fragment("<a>".to_string());

    let mut priming = StreamAssembler::new(SsrMode::InOrder);
    assert_eq!(priming.step(RenderEvent::Disconnected, &meta), Action::Abort);

    let mut awaiting = StreamAssembler::new(SsrMode::InOrder);
    awaiting.step(frag(), &meta);
    assert_eq!(awaiting.step(RenderEvent::Disconnected, &meta), Action::Abort);
    assert!(awaiting.is_done());

    let mut topping = StreamAssembler::with_priming(SsrMode::InOrder, 2);
    topping.step(frag(), &meta);
    assert_eq!(topping.step(shell(), &meta), Action::Pull);
    assert_eq!(topping.phase(), Phase::Topping);
    assert_eq!(topping.step(RenderEvent::Disconnected, &meta), Action::Abort);

    let mut streaming = StreamAssembler::new(SsrMode::InOrder);
    streaming.step(frag(), &meta);
    streaming.step(shell(), &meta);
    assert_eq!(streaming.step(RenderEvent::Disconnected, &meta), Action::Abort);
    assert!(streaming.is_done());

    let mut collecting = StreamAssembler::new(SsrMode::Async);
    collecting.step(frag(), &meta);
    assert_eq!(collecting.step(RenderEvent::Disconnected, &meta), Action::Abort);
}

#[test]
fn events_that_answer_nothing_repeat_the_request() {
    let meta = ResponseOptions::default();
    let shell = || RenderEvent::Shell { head: HEAD.to_string(), tail: TAIL.to_string() };
    let frag = |s: &str| RenderEvent::Fragment(s.to_string());

    let mut m = StreamAssembler::new(SsrMode::OutOfOrder);
    assert_eq!(m.step(shell(), &meta), Action::Pull);
    assert_eq!(m.phase(), Phase::Priming);
    assert_eq!(m.step(frag("<a>"), &meta), Action::BuildShell);
    assert_eq!(m.step(frag("<lost>"), &meta), Action::BuildShell);
    assert_eq!(m.step(RenderEvent::Exhausted, &meta), Action::BuildShell);
    assert_eq!(m.step(RenderEvent::Failed("x".to_string()), &meta), Action::BuildShell);
    assert_eq!(m.phase(), Phase::Shell);
    assert!(matches!(m.step(shell(), &meta), Action::Open { chunks, .. } if chunks == vec![HEAD, "<a>"]));
    assert_eq!(m.step(shell(), &meta), Action::Pull);
    assert_eq!(m.phase(), Phase::Streaming);
    assert_eq!(m.step(RenderEvent::Exhausted, &meta), Action::Finish(TAIL.to_string()));
}

#[test]
fn empty_rendering_yields_head_and_tail() {
    for mode in ALL {
        let actions = drive(mode, DEFAULT_PRIME, &[], End::Exhausted, leave);
        assert_eq!(body(&actions), "<!doc-head><!doc-tail>");
        assert_eq!(openings(&actions).len(), 1);
        assert_eq!(openings(&actions)[0].status, 200);
    }
}

#[test]
fn wider_priming_holds_back_more_fragments() {
    let fragments: [(&str, Touch); 4] =
        [("<a>", leave), ("<b>", to_login), ("<c>", teapot), ("<d>", leave)];
    for mode in STREAMING {
        let actions = drive(mode, 2, &fragments, End::Exhausted, leave);
        assert_eq!(actions[0], Action::BuildShell);
        assert_eq!(actions[1], Action::Pull);
        match &actions[2] {
            Action::Open { head, chunks } => {
                assert_eq!(head.status, 302);
                assert_eq!(head.headers.get("location"), Some("/login".to_string()));
                assert_eq!(*chunks, vec![HEAD, "<a>", "<b>"]);
            }
            other => panic!("unexpected {:?}", other),
        }
        assert_eq!(body(&actions), "<!doc-head><a><b><c><d><!doc-tail>");
        assert_eq!(openings(&actions).len(), 1);
    }
}

#[test]
fn priming_wider_than_the_rendering_opens_at_the_end() {
    let fragments: [(&str, Touch); 2] = [("<a>", leave), ("<b>", teapot)];
    for mode in STREAMING {
        let actions = drive(mode, 5, &fragments, End::Exhausted, leave);
        assert_eq!(chunks(&actions), vec![HEAD, "<a>", "<b>", TAIL]);
        assert_eq!(openings(&actions).len(), 1);
        assert_eq!(openings(&actions)[0].status, 418);
        let failed = drive(mode, 5, &fragments, End::Failed("early"), leave);
        match failed.last().unwrap() {
            Action::Respond(r) => {
                assert_eq!(r.head.status, 500);
                assert_eq!(r.body, "early");
            }
            other => panic!("unexpected {:?}", other),
        }
        assert_eq!(chunks(&failed), vec!["early"]);
    }
}

#[test]
fn priming_of_zero_is_priming_of_one() {
    let fragments: [(&str, Touch); 2] = [("<a>", leave), ("<b>", leave)];
    for mode in STREAMING {
        let zero = drive(mode, 0, &fragments, End::Exhausted, leave);
        let one = drive(mode, 1, &fragments, End::Exhausted, leave);
        assert_eq!(zero, one);
    }
}

#[test]
fn async_route_yields_exact_document() {
    let fragments: [(&str, Touch); 2] = [("<h1>A</h1>", leave), ("<p>B</p>", leave)];
    let actions = drive(SsrMode::Async, DEFAULT_PRIME, &fragments, End::Exhausted, leave);
    match actions.last().unwrap() {
        Action::Respond(r) => {
            assert_eq!(r.head.status, 200);
            assert_eq!(r.head.headers.get("Content-Type"), Some("text/html".to_string()));
            assert_eq!(r.body, "<!doc-head><h1>A</h1><p>B</p><!doc-tail>");
        }
        other => panic!("unexpected {:?}", other),
    }
}

#[test]
fn redirect_as_first_action_is_committed_whatever_remains() {
    for remaining in [0usize, 1, 3, 10] {
        let mut meta = ResponseOptions::default();
        let mut machine = StreamAssembler::new(SsrMode::OutOfOrder);
        redirect(&mut meta, "/login").unwrap();
        let a = machine.step(RenderEvent::Fragment("<shell>".to_string()), &meta);
        assert_eq!(a, Action::BuildShell);
        let b = machine
            .step(RenderEvent::Shell { head: HEAD.to_string(), tail: TAIL.to_string() }, &meta);
        match b {
            Action::Open { head, chunks } => {
                assert_eq!(head.status, 302);
                assert_eq!(head.headers.get("Location"), Some("/login".to_string()));
                assert_eq!(chunks, vec![HEAD.to_string(), "<shell>".to_string()]);
            }
            other => panic!("unexpected {:?}", other),
        }
        for i in 0..remaining {
            let c = machine.step(RenderEvent::Fragment(format!("<{}>", i)), &meta);
            assert_eq!(c, Action::Forward(format!("<{}>", i)));
        }
    }
}

#[test]
fn media_type_of_a_document_is_fixed() {
    let fragments: [(&str, Touch); 1] = [("<a>", as_json)];
    for mode in ALL {
        let actions = drive(mode, DEFAULT_PRIME, &fragments, End::Exhausted, leave);
        let opened = openings(&actions);
        assert_eq!(
            lines(&opened[0]),
            vec![line("content-type", "text/html"), line("x-kept", "1")]
        );
        assert_eq!(opened[0].headers.get("Content-Type"), Some("text/html".to_string()));
    }
}
