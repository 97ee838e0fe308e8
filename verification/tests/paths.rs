use ce_serve::path::{is_immutable_asset, mime_for, norm_path};

fn key(raw: &str) -> Option<String> {
    norm_path(raw)
}

#[test]
fn root_is_the_empty_key() {
    assert_eq!(key("/"), Some(String::new()));
    assert_eq!(key(""), Some(String::new()));
    assert_eq!(key("///"), Some(String::new()));
}

#[test]
fn leading_slashes_go() {
    assert_eq!(key("/a/b.js"), Some("a/b.js".to_string()));
    assert_eq!(key("//a/b.js"), Some("a/b.js".to_string()));
    assert_eq!(key("a/b.js"), Some("a/b.js".to_string()));
}

#[test]
fn unsafe_segments_refuse_the_path() {
    assert_eq!(key("/.."), None);
    assert_eq!(key("/a/../b"), None);
    assert_eq!(key("/a/."), None);
    assert_eq!(key("/./a"), None);
    assert_eq!(key("/a//b"), None);
    assert_eq!(key("/a/"), None);
}

#[test]
fn dots_inside_a_segment_are_names() {
    assert_eq!(key("/..."), Some("...".to_string()));
    assert_eq!(key("/a..b/.c"), Some("a..b/.c".to_string()));
    assert_eq!(key("/caf\u{e9}"), Some("caf\u{e9}".to_string()));
}

#[test]
fn normal_keys_stay() {
    for raw in ["/a", "/a/b", "//x/y.z"] {
        let once = key(raw).unwrap();
        assert_eq!(key(&once), Some(once.clone()));
        assert_eq!(key(&format!("/{once}")), Some(once));
    }
}

#[test]
fn media_types_by_extension() {
    let table = [
        ("index.html", "text/html; charset=utf-8"),
        ("a.htm", "text/html; charset=utf-8"),
        ("a.js", "text/javascript; charset=utf-8"),
        ("a.mjs", "text/javascript; charset=utf-8"),
        ("a.css", "text/css; charset=utf-8"),
        ("a.json", "application/json; charset=utf-8"),
        ("a.wasm", "application/wasm"),
        ("a.svg", "image/svg+xml"),
        ("a.png", "image/png"),
        ("a.jpg", "image/jpeg"),
        ("a.jpeg", "image/jpeg"),
        ("a.webp", "image/webp"),
        ("a.gif", "image/gif"),
        ("a.ico", "image/x-icon"),
        ("a.woff2", "font/woff2"),
        ("a.woff", "font/woff"),
        ("a.txt", "text/plain; charset=utf-8"),
        ("a.wgsl", "text/plain; charset=utf-8"),
        ("a.ttf", "application/octet-stream"),
        ("a", "application/octet-stream"),
        ("", "application/octet-stream"),
        ("dir.js/file", "application/octet-stream"),
    ];
    for (path, expected) in table {
        assert_eq!(mime_for(path), expected, "{path}");
    }
}

#[test]
fn media_type_ignores_case_and_reads_the_last_dot() {
    assert_eq!(mime_for("A.HTML"), "text/html; charset=utf-8");
    assert_eq!(mime_for("a.tar.Js"), "text/javascript; charset=utf-8");
    assert_eq!(mime_for("js"), "text/javascript; charset=utf-8");
}

#[test]
fn hashed_names_are_immutable() {
    assert!(is_immutable_asset("index-D_NtxU66.js"));
    assert!(is_immutable_asset("app-DCKp3R-I.wasm"));
    assert!(is_immutable_asset("assets/index-D_NtxU66.css"));
    assert!(is_immutable_asset("x-12345678.woff2"));
    assert!(is_immutable_asset("a.b-12345678.map"));
    assert!(is_immutable_asset("my-app-123456789.js"));
    assert!(is_immutable_asset("app---------.js"));
}

#[test]
fn stable_names_are_not_immutable() {
    assert!(!is_immutable_asset("boot.js"));
    assert!(!is_immutable_asset("pkg/app_bg.wasm"));
    assert!(!is_immutable_asset("apple-touch-icon.png"));
    assert!(!is_immutable_asset("service-worker-v2.js"));
    assert!(!is_immutable_asset("android-chrome-192x192.png"));
    assert!(!is_immutable_asset("index.html"));
    assert!(!is_immutable_asset("index-1234567.js"));
    assert!(!is_immutable_asset("index-D_NtxU66.html"));
    assert!(!is_immutable_asset("index-D_NtxU66.JS"));
    assert!(!is_immutable_asset("index-D_NtxU66"));
    assert!(!is_immutable_asset("dir-12345678.js/app.js"));
    assert!(!is_immutable_asset("index-1234 678.js"));
    assert!(!is_immutable_asset("index-123456\u{e9}8.js"));
    assert!(!is_immutable_asset(""));
}

#[test]
fn directories_do_not_matter_to_a_hash() {
    for name in ["index-D_NtxU66.js", "boot.js", "a/boot-12345678.js", ""] {
        for dir in ["", "x", "x-12345678.js", "a/b"] {
            assert_eq!(is_immutable_asset(&format!("{dir}/{name}")), is_immutable_asset(name));
        }
    }
}
