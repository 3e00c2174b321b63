use leptos_cloudflare::{
    generate_request_parts, provide_contexts, HeaderError, Headers, Method, RenderContext,
    RequestError, ResponseOptions, Url,
};

fn parts(url: &str) -> leptos_cloudflare::RequestParts {
    generate_request_parts(Method::Get, url, Headers::new(), Some(Vec::new())).unwrap()
}

#[test]
fn url_is_parsed_into_its_parts() {
    let u = Url::parse("HTTPS://Example.COM/api/get_post?id=1#frag").unwrap();
    assert_eq!(u.as_str(), "https://example.com/api/get_post?id=1#frag");
    assert_eq!(u.scheme(), "https");
    assert_eq!(u.host_str(), Some("example.com"));
    assert_eq!(u.path(), "/api/get_post");
    assert_eq!(u.query(), Some("id=1"));
}

#[test]
fn url_without_path_or_query_has_the_root_path() {
    let u = Url::parse("https://example.com").unwrap();
    assert_eq!(u.as_str(), "https://example.com/");
    assert_eq!(u.path(), "/");
    assert_eq!(u.query(), None);
    assert_eq!(u.last_path_segment(), Some(String::new()));
}

#[test]
fn url_without_host_is_parsed() {
    let u = Url::parse("data:text/plain,Stuff").unwrap();
    assert_eq!(u.scheme(), "data");
    assert_eq!(u.host_str(), None);
    assert_eq!(u.path(), "text/plain,Stuff");
    assert_eq!(u.last_path_segment(), None);
}

#[test]
fn text_that_is_no_absolute_url_is_refused() {
    assert_eq!(Url::parse("/post/async/1"), None);
    assert_eq!(Url::parse(""), None);
    assert_eq!(Url::parse("https://"), None);
}

#[test]
fn last_path_segment_stands_behind_the_last_slash() {
    let last = |s: &str| Url::parse(s).unwrap().last_path_segment();
    assert_eq!(last("https://example.com/api/get_post"), Some("get_post".to_string()));
    assert_eq!(last("https://example.com/api/"), Some(String::new()));
    assert_eq!(last("https://example.com/one"), Some("one".to_string()));
    assert_eq!(last("https://example.com/a/b/c/d?x=/y"), Some("d".to_string()));
}

#[test]
fn request_parts_hold_what_was_handed_in() {
    let mut headers = Headers::new();
    headers.append("Accept", "text/html").unwrap();
    let r = generate_request_parts(
        Method::Post,
        "https://example.com/post/async/1?x=1",
        headers.clone(),
        Some(vec![1, 2, 3]),
    )
    .unwrap();
    assert_eq!(r.method, Method::Post);
    assert_eq!(r.body, vec![1, 2, 3]);
    assert_eq!(r.headers, headers);
    assert_eq!(r.url.path(), "/post/async/1");
    assert_eq!(r.url.query(), Some("x=1"));
}

#[test]
fn unreadable_body_counts_as_empty() {
    let r = generate_request_parts(Method::Get, "https://example.com/", Headers::new(), None)
        .unwrap();
    assert!(r.body.is_empty());
}

#[test]
fn unparsable_url_fails_the_request() {
    let r = generate_request_parts(Method::Get, "not a url", Headers::new(), Some(vec![1]));
    assert_eq!(r, Err(RequestError::MalformedUrl));
}

#[test]
fn render_context_starts_with_untouched_metadata() {
    let request = parts("https://example.com/post/in-order/2");
    let c = RenderContext::new(request.clone());
    assert_eq!(c.path, "https://example.com/post/in-order/2");
    assert_eq!(c.request, request);
    assert_eq!(c.response.status, Some(200));
    assert_eq!(c.response.headers.len(), 0);
}

#[test]
fn provide_contexts_keeps_what_it_is_given() {
    let request = parts("https://example.com/x");
    let mut response = ResponseOptions::default();
    response.status = Some(404);
    response.append_header("x-a", "b").unwrap();
    let c = provide_contexts("/x".to_string(), request.clone(), response.clone());
    assert_eq!(c.path, "/x");
    assert_eq!(c.request, request);
    assert_eq!(c.response, response);
}

#[test]
fn redirect_sets_302_and_replaces_location() {
    let mut c = RenderContext::new(parts("https://example.com/"));
    c.response.append_header("Location", "/old").unwrap();
    c.response.append_header("X-Keep", "1").unwrap();
    c.response.append_header("location", "/older").unwrap();
    assert_eq!(c.redirect("/login"), Ok(()));
    assert_eq!(c.response.status, Some(302));
    assert_eq!(c.response.headers.get("Location"), Some("/login".to_string()));
    assert_eq!(c.response.headers.len(), 2);
    assert_eq!(c.response.headers.get("x-keep"), Some("1".to_string()));
}

#[test]
fn redirect_to_an_invalid_target_changes_nothing() {
    let mut c = RenderContext::new(parts("https://example.com/"));
    assert_eq!(c.redirect("/a\r\nSet-Cookie: x"), Err(HeaderError::InvalidValue));
    assert_eq!(c.response.status, Some(200));
    assert_eq!(c.response.headers.len(), 0);
    let mut r = ResponseOptions::default();
    assert_eq!(
        leptos_cloudflare::redirect(&mut r, "bad\0"),
        Err(HeaderError::InvalidValue)
    );
    assert_eq!(r, ResponseOptions::default());
}

#[test]
fn build_reads_the_request_and_starts_fresh() {
    let mut headers = Headers::new();
    headers.append("Cookie", "a=1").unwrap();
    let c = RenderContext::build(
        Method::Put,
        "https://example.com/post/out-of-order/3?draft=1",
        headers.clone(),
        Some(b"text".to_vec()),
    )
    .unwrap();
    assert_eq!(c.path, "https://example.com/post/out-of-order/3?draft=1");
    assert_eq!(c.request.method, Method::Put);
    assert_eq!(c.request.body, b"text".to_vec());
    assert_eq!(c.request.headers, headers);
    assert_eq!(c.request.url.path(), "/post/out-of-order/3");
    assert_eq!(c.request.url.query(), Some("draft=1"));
    assert_eq!(c.response, ResponseOptions::default());
}

#[test]
fn build_fails_on_an_unparsable_url() {
    let r = RenderContext::build(Method::Get, "::", Headers::new(), None);
    assert_eq!(r, Err(RequestError::MalformedUrl));
}
