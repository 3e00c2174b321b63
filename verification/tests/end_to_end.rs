use leptos_cloudflare::{
    generate_route_list, Action, Headers, LeptosRoutes, Method, RenderContext, RenderEvent,
    RouteListing, Router, SsrMode, StreamAssembler,
};

fn blog_routes() -> Vec<RouteListing> {
    let route = |path: &str, mode: SsrMode| {
        RouteListing::new(path.to_string(), path.to_string(), mode, &vec![Method::Get], None)
    };
    generate_route_list(vec![
        route("", SsrMode::OutOfOrder),
        route("/post/out-of-order/:id", SsrMode::OutOfOrder),
        route("/post/partially-blocked/:id", SsrMode::PartiallyBlocked),
        route("/post/in-order/:id", SsrMode::InOrder),
        route("/post/async/:id", SsrMode::Async),
    ])
}

/// The strategy that the table holds for a method and a pattern.
fn strategy(router: &Router, method: Method, pattern: &str) -> SsrMode {
    let found: Vec<SsrMode> = router
        .routes()
        .iter()
        .filter(|r| r.method == method && r.path == pattern)
        .map(|r| r.mode)
        .collect();
    assert_eq!(found.len(), 1);
    found[0]
}

fn shell() -> RenderEvent {
    RenderEvent::Shell { head: "<!doc-head>".to_string(), tail: "<!doc-tail>".to_string() }
}

#[test]
fn get_of_an_async_post_yields_the_whole_document_at_once() {
    let router = Router::new().leptos_routes(blog_routes());
    let mode = strategy(&router, Method::Get, "/post/async/:id");
    assert_eq!(mode, SsrMode::Async);

    let context =
        RenderContext::build(Method::Get, "https://blog.example/post/async/1", Headers::new(), None)
            .unwrap();
    assert_eq!(context.request.url.path(), "/post/async/1");

    let mut machine = StreamAssembler::new(mode);
    let mut actions = Vec::new();
    for fragment in ["<h1>A</h1>", "<p>B</p>"] {
        actions.push(machine.step(RenderEvent::Fragment(fragment.to_string()), &context.response));
    }
    assert_eq!(actions, vec![Action::Pull, Action::Pull]);
    assert_eq!(machine.step(RenderEvent::Exhausted, &context.response), Action::BuildShell);
    match machine.step(shell(), &context.response) {
        Action::Respond(response) => {
            assert_eq!(response.head.status, 200);
            assert_eq!(response.head.headers.get("Content-Type"), Some("text/html".to_string()));
            assert_eq!(response.head.headers.len(), 1);
            assert_eq!(response.body, "<!doc-head><h1>A</h1><p>B</p><!doc-tail>");
        }
        other => panic!("unexpected {:?}", other),
    }
    assert!(machine.is_done());
}

#[test]
fn redirect_first_thing_in_an_out_of_order_route_is_sent() {
    let router = Router::new().leptos_routes(blog_routes());
    let mode = strategy(&router, Method::Get, "/post/out-of-order/:id");
    assert_eq!(mode, SsrMode::OutOfOrder);

    let mut context = RenderContext::build(
        Method::Get,
        "https://blog.example/post/out-of-order/7",
        Headers::new(),
        None,
    )
    .unwrap();
    let mut machine = StreamAssembler::new(mode);

    // the component redirects before anything else, then its shell comes out
    context.redirect("/login").unwrap();
    let asked = machine.step(RenderEvent::Fragment("<main>".to_string()), &context.response);
    assert_eq!(asked, Action::BuildShell);
    match machine.step(shell(), &context.response) {
        Action::Open { head, chunks } => {
            assert_eq!(head.status, 302);
            assert_eq!(head.headers.get("Location"), Some("/login".to_string()));
            assert_eq!(chunks, vec!["<!doc-head>".to_string(), "<main>".to_string()]);
        }
        other => panic!("unexpected {:?}", other),
    }
    // nothing that is still unresolved is awaited, and nothing later counts
    context.response.status = Some(200);
    context.response.insert_header("Location", "/elsewhere").unwrap();
    assert_eq!(
        machine.step(RenderEvent::Fragment("<late>".to_string()), &context.response),
        Action::Forward("<late>".to_string())
    );
    assert_eq!(
        machine.step(RenderEvent::Exhausted, &context.response),
        Action::Finish("<!doc-tail>".to_string())
    );
}

#[test]
fn root_route_is_served_under_the_root_path() {
    let router = Router::new().leptos_routes(blog_routes());
    assert_eq!(router.routes().len(), 5);
    assert_eq!(strategy(&router, Method::Get, "/"), SsrMode::OutOfOrder);
    assert_eq!(strategy(&router, Method::Get, "/post/in-order/:id"), SsrMode::InOrder);
    assert_eq!(
        strategy(&router, Method::Get, "/post/partially-blocked/:id"),
        SsrMode::PartiallyBlocked
    );
}
