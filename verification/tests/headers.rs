use leptos_cloudflare::{HeaderError, Headers, ResponseOptions};

fn pairs(h: &Headers) -> Vec<(String, String)> {
    h.entries().iter().map(|e| (e.name.clone(), e.value.clone())).collect()
}

fn pair(name: &str, value: &str) -> (String, String) {
    (name.to_string(), value.to_string())
}

#[test]
fn set_replaces_first_and_drops_later_lines_of_the_name() {
    let mut h = Headers::new();
    h.append("Set-Cookie", "a=1").unwrap();
    h.append("X-Other", "x").unwrap();
    h.append("set-cookie", "b=2").unwrap();
    h.append("X-Last", "y").unwrap();
    h.set("SET-COOKIE", "c=3").unwrap();
    assert_eq!(
        pairs(&h),
        vec![pair("set-cookie", "c=3"), pair("x-other", "x"), pair("x-last", "y")]
    );
}

#[test]
fn set_adds_a_line_where_the_name_is_new() {
    let mut h = Headers::new();
    h.append("a", "1").unwrap();
    h.set("b", "2").unwrap();
    assert_eq!(pairs(&h), vec![pair("a", "1"), pair("b", "2")]);
}

#[test]
fn append_keeps_lines_of_the_same_name() {
    let mut h = Headers::new();
    h.append("Vary", "Accept").unwrap();
    h.append("vary", "Cookie").unwrap();
    assert_eq!(pairs(&h), vec![pair("vary", "Accept"), pair("vary", "Cookie")]);
    assert_eq!(h.get("VARY"), Some("Accept, Cookie".to_string()));
    assert_eq!(h.len(), 2);
}

#[test]
fn get_reads_nothing_under_an_absent_name() {
    let mut h = Headers::new();
    h.append("a", "1").unwrap();
    assert_eq!(h.get("b"), None);
    assert_eq!(Headers::new().get("a"), None);
}

#[test]
fn invalid_names_and_values_are_refused_and_change_nothing() {
    let mut h = Headers::new();
    h.append("a", "1").unwrap();
    assert_eq!(h.set("", "v"), Err(HeaderError::InvalidName));
    assert_eq!(h.set("bad name", "v"), Err(HeaderError::InvalidName));
    assert_eq!(h.append("na:me", "v"), Err(HeaderError::InvalidName));
    assert_eq!(h.set("a", "line\nbreak"), Err(HeaderError::InvalidValue));
    assert_eq!(h.append("a", "cr\r"), Err(HeaderError::InvalidValue));
    assert_eq!(h.append("a", "nul\0"), Err(HeaderError::InvalidValue));
    assert_eq!(h.set("", "line\nbreak"), Err(HeaderError::InvalidName));
    assert_eq!(pairs(&h), vec![pair("a", "1")]);
}

#[test]
fn response_options_start_at_200_without_headers() {
    let r = ResponseOptions::default();
    assert_eq!(r.status, Some(200));
    assert_eq!(r.headers.len(), 0);
    assert_eq!(r.status_or_default(), 200);
}

#[test]
fn insert_header_overwrites_and_append_header_adds() {
    let mut r = ResponseOptions::default();
    r.append_header("X-Tag", "one").unwrap();
    r.append_header("x-tag", "two").unwrap();
    assert_eq!(r.headers.get("x-tag"), Some("one, two".to_string()));
    r.insert_header("X-TAG", "three").unwrap();
    assert_eq!(pairs(&r.headers), vec![pair("x-tag", "three")]);
    assert_eq!(r.status, Some(200));
    assert_eq!(r.insert_header("x tag", "v"), Err(HeaderError::InvalidName));
    assert_eq!(r.append_header("x-tag", "a\nb"), Err(HeaderError::InvalidValue));
    assert_eq!(pairs(&r.headers), vec![pair("x-tag", "three")]);
}
