use leptos_cloudflare::{
    asset_extension, asset_media_type, asset_reply, serve_asset, BinaryResponse, HeaderError,
};

fn lines(r: &BinaryResponse) -> Vec<(String, String)> {
    r.head.headers.entries().iter().map(|e| (e.name.clone(), e.value.clone())).collect()
}

#[test]
fn extension_stands_behind_the_last_dot() {
    assert_eq!(asset_extension("client.js"), Some("js".to_string()));
    assert_eq!(asset_extension("client_bg.wasm"), Some("wasm".to_string()));
    assert_eq!(asset_extension("archive.tar.gz"), Some("gz".to_string()));
    assert_eq!(asset_extension("trailing."), Some(String::new()));
    assert_eq!(asset_extension(".a.b"), Some("b".to_string()));
    assert_eq!(asset_extension("a.\u{e9}t\u{e9}"), Some("\u{e9}t\u{e9}".to_string()));
}

#[test]
fn names_without_an_inner_dot_have_no_extension() {
    assert_eq!(asset_extension(""), None);
    assert_eq!(asset_extension("README"), None);
    assert_eq!(asset_extension(".hidden"), None);
    assert_eq!(asset_extension("."), None);
}

#[test]
fn media_type_goes_by_the_extension() {
    assert_eq!(asset_media_type("client.js"), Some("text/javascript".to_string()));
    assert_eq!(asset_media_type("client_bg.wasm"), Some("application/wasm".to_string()));
    assert_eq!(asset_media_type("style.css"), Some("text/css".to_string()));
    assert_eq!(asset_media_type("INDEX.HTML"), Some("text/html".to_string()));
    assert_eq!(asset_media_type("a.b.html"), Some("text/html".to_string()));
    assert_eq!(asset_media_type("README"), None);
    assert_eq!(asset_media_type(".html"), None);
    assert_eq!(asset_media_type("trailing."), None);
    assert_eq!(asset_media_type("file.no-such-extension"), None);
}

#[test]
fn found_asset_goes_out_under_its_media_type() {
    let reply = serve_asset("client.js", Some(b"let x;".to_vec())).unwrap();
    assert_eq!(reply.head.status, 200);
    assert_eq!(lines(&reply), vec![("content-type".to_string(), "text/javascript".to_string())]);
    assert_eq!(reply.body, b"let x;".to_vec());
    let empty = serve_asset("style.css", Some(Vec::new())).unwrap();
    assert_eq!(empty.head.status, 200);
    assert!(empty.body.is_empty());
}

#[test]
fn missing_asset_is_not_found_whatever_its_name() {
    for name in ["client.js", "README", ""] {
        let reply = serve_asset(name, None).unwrap();
        assert_eq!(reply.head.status, 404);
        assert!(lines(&reply).is_empty());
        assert_eq!(reply.body, b"Not found".to_vec());
    }
}

#[test]
fn asset_of_unknown_type_is_unsupported() {
    let reply = serve_asset("README", Some(vec![1, 2])).unwrap();
    assert_eq!(reply.head.status, 415);
    assert!(lines(&reply).is_empty());
    assert_eq!(reply.body, b"Unsupported file type".to_vec());
    let reply = asset_reply(Some(vec![1]), None).unwrap();
    assert_eq!(reply.head.status, 415);
}

#[test]
fn media_type_that_is_no_header_value_is_refused() {
    assert_eq!(
        asset_reply(Some(vec![1]), Some("text/html\r\nx: y".to_string())),
        Err(HeaderError::InvalidValue)
    );
    let fine = asset_reply(Some(vec![1]), Some("image/png".to_string())).unwrap();
    assert_eq!(lines(&fine), vec![("content-type".to_string(), "image/png".to_string())]);
    assert_eq!(asset_reply(None, Some("bad\n".to_string())).unwrap().head.status, 404);
}
