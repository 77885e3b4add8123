use static_server::api::hello;
use static_server::resolver::{resolve, Response};
use static_server::router::handle;
use static_server::store::AssetStore;

fn demo_store() -> AssetStore {
    let mut s = AssetStore::new();
    s.insert(String::from("index.html"), b"<h1>Home</h1>".to_vec());
    s.insert(String::from("app.js"), b"console.log(1)".to_vec());
    s
}

fn same_response(a: &Response, b: &Response) -> bool {
    a.status == b.status && a.content_type == b.content_type && a.body == b.body
}

#[test]
fn registered_paths_serve_stored_bytes() {
    let s = demo_store();
    let r = resolve(&s, "index.html");
    assert_eq!(r.status, 200);
    assert_eq!(r.body, b"<h1>Home</h1>".to_vec());
    let r = resolve(&s, "app.js");
    assert_eq!(r.status, 200);
    assert_eq!(r.body, b"console.log(1)".to_vec());
}

#[test]
fn missing_path_is_not_found() {
    let s = demo_store();
    let r = resolve(&s, "/missing.png");
    assert_eq!(r.status, 404);
    assert_eq!(r.body, b"404 Not Found".to_vec());
    assert_eq!(r.content_type, "text/plain");
}

#[test]
fn empty_store_everything_is_not_found() {
    let s = AssetStore::new();
    let r = resolve(&s, "/");
    assert_eq!(r.status, 404);
    assert_eq!(r.body, b"404 Not Found".to_vec());
    let r = resolve(&s, "index.html");
    assert_eq!(r.status, 404);
}

#[test]
fn directory_style_paths_match_index() {
    let s = demo_store();
    let index = resolve(&s, "index.html");
    assert!(same_response(&index, &resolve(&s, "")));
    assert!(same_response(&index, &resolve(&s, "/")));
    assert!(same_response(&index, &resolve(&s, "/some/dir/")));
}

#[test]
fn leading_slashes_are_stripped() {
    let s = demo_store();
    let r = resolve(&s, "//app.js");
    assert_eq!(r.status, 200);
    assert_eq!(r.body, b"console.log(1)".to_vec());
}

#[test]
fn content_type_comes_from_the_extension() {
    let s = demo_store();
    assert_eq!(resolve(&s, "/").content_type, "text/html");
    assert_eq!(resolve(&s, "/app.js").content_type, "text/javascript");
}

#[test]
fn unknown_extension_falls_back_to_octet_stream() {
    let mut s = AssetStore::new();
    s.insert(String::from("blob.zzzz"), vec![0u8, 1, 2]);
    let r = resolve(&s, "/blob.zzzz");
    assert_eq!(r.status, 200);
    assert_eq!(r.content_type, "application/octet-stream");
    assert_eq!(r.body, vec![0u8, 1, 2]);
}

#[test]
fn empty_asset_body_is_served_empty() {
    let mut s = AssetStore::new();
    s.insert(String::from("empty.txt"), Vec::new());
    let r = resolve(&s, "/empty.txt");
    assert_eq!(r.status, 200);
    assert_eq!(r.body, Vec::<u8>::new());
}

#[test]
fn hello_is_the_fixed_greeting() {
    assert_eq!(hello(), "Hello from Actix API!");
}

#[test]
fn api_path_answers_the_greeting_whatever_the_store_holds() {
    let r = handle(&demo_store(), "/api/hello");
    assert_eq!(r.status, 200);
    assert_eq!(r.body, b"Hello from Actix API!".to_vec());
    assert_eq!(r.content_type, "text/plain");
    let r = handle(&AssetStore::new(), "/api/hello");
    assert_eq!(r.status, 200);
    assert_eq!(r.body, b"Hello from Actix API!".to_vec());
}

#[test]
fn other_paths_fall_through_to_the_resolver() {
    let s = demo_store();
    let r = handle(&s, "/app.js");
    assert_eq!(r.status, 200);
    assert_eq!(r.body, b"console.log(1)".to_vec());
    let r = handle(&s, "/api/hello/extra");
    assert_eq!(r.status, 404);
}

#[test]
fn repeated_requests_are_answered_identically() {
    let s = demo_store();
    for path in ["/", "/app.js", "/missing.png", "/api/hello"] {
        let a = handle(&s, path);
        let b = handle(&s, path);
        assert!(same_response(&a, &b));
    }
}

#[test]
fn demo_scenario() {
    let s = demo_store();

    let r = handle(&s, "/");
    assert_eq!(r.status, 200);
    assert!(r.content_type.starts_with("text/html"));
    assert_eq!(r.body, b"<h1>Home</h1>".to_vec());

    let r = handle(&s, "/app.js");
    assert_eq!(r.status, 200);
    assert!(r.content_type.contains("javascript"));
    assert_eq!(r.body, b"console.log(1)".to_vec());

    let r = handle(&s, "/missing.png");
    assert_eq!(r.status, 404);
    assert_eq!(r.body, b"404 Not Found".to_vec());

    let r = handle(&s, "/api/hello");
    assert_eq!(r.status, 200);
    assert_eq!(r.body, b"Hello from Actix API!".to_vec());
}

#[test]
fn store_lookup_finds_exactly_what_was_inserted() {
    let mut s = AssetStore::new();
    s.insert(String::from("a.txt"), vec![1u8]);
    s.insert(String::from("b.txt"), vec![2u8]);
    assert_eq!(s.get(&String::from("a.txt")), Some(&vec![1u8]));
    assert_eq!(s.get(&String::from("b.txt")), Some(&vec![2u8]));
    assert_eq!(s.get(&String::from("c.txt")), None);
}
