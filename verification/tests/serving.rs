use ce_serve::bundle::{BundleRef, Manifest};
use ce_serve::html::BRIDGE_TAG;
use ce_serve::reply::{respond_file, serve_bridge_js, Reply};
use ce_serve::serve::{
    load_file, local_file_read, serve_content, serve_from_bundle, LocalFile, Next,
};
use ce_serve::table::FileTable;

fn manifest(spa: bool, files: &[(&str, &str)]) -> Manifest {
    let mut table = FileTable::new();
    for (path, cid) in files {
        table.insert(path.to_string(), cid.to_string());
    }
    Manifest { spa, files: table }
}

fn bundle(spa: bool) -> BundleRef {
    BundleRef { app_id: "app".to_string(), cid: "bundle".to_string(), spa }
}

fn answer(next: Next) -> Reply {
    match next {
        Next::Answer(reply) => reply,
        _ => panic!("an answer was due"),
    }
}

fn blob(next: Next) -> (String, String, bool) {
    match next {
        Next::Blob(send) => (send.target.cid, send.target.content_type, send.immutable),
        _ => panic!("a fetch was due"),
    }
}

fn text(s: &str) -> Option<String> {
    Some(s.to_string())
}

const HTML: &str = "text/html; charset=utf-8";

#[test]
fn bad_path_is_refused() {
    let reply = answer(serve_content("/a/../b", Some("h"), None, ""));
    assert_eq!(reply.status, 400);
    assert_eq!(reply.content_type, text("text/plain; charset=utf-8"));
    assert_eq!(reply.cache_control, None);
    assert_eq!(reply.etag, None);
    assert_eq!(reply.body, b"bad path".to_vec());
}

#[test]
fn request_is_taken_apart() {
    match serve_content("/x.js", Some("Host:80"), Some("\"c\""), "") {
        Next::Resolve(lookup) => {
            assert_eq!(lookup.host, "host");
            assert_eq!(lookup.key, "x.js");
            assert_eq!(lookup.held, text("c"));
        }
        _ => panic!("a lookup was due"),
    }
    match serve_content("/x.js", None, None, "Default") {
        Next::Resolve(lookup) => assert_eq!(lookup.host, "default"),
        _ => panic!("a lookup was due"),
    }
    match serve_content("/x.js", None, None, "") {
        Next::Load(read) => assert_eq!(read.key, "x.js"),
        _ => panic!("a read was due"),
    }
}

#[test]
fn unregistered_host_falls_back_to_the_site() {
    let Next::Resolve(lookup) = serve_content("/x.js", Some("h"), None, "") else {
        panic!("a lookup was due")
    };
    match lookup.resolved(None) {
        Next::Load(read) => assert_eq!(read.key, "x.js"),
        _ => panic!("a read was due"),
    }
}

#[test]
fn registered_host_is_served_from_its_bundle() {
    let Next::Resolve(lookup) = serve_content("/", Some("h"), None, "") else {
        panic!("a lookup was due")
    };
    let Next::Manifest(open) = lookup.resolved(Some(bundle(false))) else {
        panic!("a manifest was due")
    };
    assert_eq!(open.bundle.cid, "bundle");
    let m = manifest(false, &[("index.html", "c1")]);
    let Next::Blob(send) = open.opened(Some(&m)) else { panic!("a fetch was due") };
    let reply = send.fetched(Some(b"<head></head>".to_vec()));
    assert_eq!(reply.status, 200);
    assert_eq!(reply.content_type, text(HTML));
    assert_eq!(reply.cache_control, text("no-cache, must-revalidate"));
    assert_eq!(reply.etag, None);
    assert_eq!(reply.body, format!("<head>{BRIDGE_TAG}</head>").into_bytes());
}

#[test]
fn own_file_comes_first() {
    let m = manifest(true, &[("apps", "c0"), ("apps.html", "c1"), ("200.html", "c2")]);
    let next = serve_from_bundle(&bundle(false), Some(&m), "apps", None);
    assert_eq!(blob(next), ("c0".to_string(), "application/octet-stream".to_string(), false));
}

#[test]
fn prerendered_pages_answer_routes() {
    let m = manifest(false, &[("apps.html", "c1"), ("foo/index.html", "c2"), ("apps/index.html", "c3")]);
    let next = serve_from_bundle(&bundle(false), Some(&m), "apps", None);
    assert_eq!(blob(next), ("c1".to_string(), HTML.to_string(), false));
    let next = serve_from_bundle(&bundle(false), Some(&m), "foo", None);
    assert_eq!(blob(next), ("c2".to_string(), HTML.to_string(), false));
}

#[test]
fn single_page_shell_answers_unknown_routes() {
    let m = manifest(false, &[("index.html", "c1"), ("200.html", "c2")]);
    let next = serve_from_bundle(&bundle(true), Some(&m), "no/such", None);
    assert_eq!(blob(next), ("c2".to_string(), HTML.to_string(), false));
    let m = manifest(true, &[("index.html", "c1")]);
    let next = serve_from_bundle(&bundle(false), Some(&m), "no/such.js", None);
    assert_eq!(blob(next), ("c1".to_string(), HTML.to_string(), false));
}

#[test]
fn nothing_answers_otherwise() {
    let m = manifest(false, &[("index.html", "c1"), ("200.html", "c2")]);
    let reply = answer(serve_from_bundle(&bundle(false), Some(&m), "no/such", None));
    assert_eq!((reply.status, reply.body), (404, b"not found".to_vec()));
    let m = manifest(true, &[("other", "c1")]);
    assert_eq!(answer(serve_from_bundle(&bundle(true), Some(&m), "x", None)).status, 404);
    assert_eq!(answer(serve_from_bundle(&bundle(true), None, "x", None)).status, 404);
}

#[test]
fn missing_blob_is_not_found() {
    let m = manifest(false, &[("a.js", "c1")]);
    let Next::Blob(send) = serve_from_bundle(&bundle(false), Some(&m), "a.js", None) else {
        panic!("a fetch was due")
    };
    let reply = send.fetched(None);
    assert_eq!(reply.status, 404);
    assert_eq!(reply.content_type, text("text/plain; charset=utf-8"));
}

#[test]
fn held_content_is_not_sent_again() {
    let m = manifest(false, &[("pkg/app_bg.wasm", "c1"), ("index.html", "c2")]);
    let Next::Blob(send) = serve_from_bundle(&bundle(false), Some(&m), "pkg/app_bg.wasm", None)
    else {
        panic!("a fetch was due")
    };
    let first = send.fetched(Some(vec![0, 1, 2]));
    assert_eq!(first.cache_control, text("no-cache"));
    assert_eq!(first.content_type, text("application/wasm"));
    assert_eq!(first.etag, text("\"c1\""));
    assert_eq!(first.body, vec![0, 1, 2]);

    let Next::Resolve(lookup) =
        serve_content("/pkg/app_bg.wasm", Some("h"), first.etag.as_deref(), "")
    else {
        panic!("a lookup was due")
    };
    let Next::Manifest(open) = lookup.resolved(Some(bundle(false))) else {
        panic!("a manifest was due")
    };
    let again = answer(open.opened(Some(&m)));
    assert_eq!(again.status, 304);
    assert_eq!(again.etag, first.etag);
    assert_eq!(again.content_type, None);
    assert_eq!(again.cache_control, None);
    assert_eq!(again.body, Vec::<u8>::new());
}

#[test]
fn changed_content_and_pages_are_sent() {
    let m = manifest(false, &[("a.wasm", "new"), ("index.html", "page")]);
    let next = serve_from_bundle(&bundle(false), Some(&m), "a.wasm", Some("old"));
    assert_eq!(blob(next).0, "new");
    let next = serve_from_bundle(&bundle(false), Some(&m), "", Some("page"));
    assert_eq!(blob(next).0, "page");
}

#[test]
fn quote_at_the_edge_of_a_content_id_defeats_the_tag() {
    let m = manifest(false, &[("a.wasm", "\"a")]);
    let Next::Blob(send) = serve_from_bundle(&bundle(false), Some(&m), "a.wasm", None) else {
        panic!("a fetch was due")
    };
    let tag = send.fetched(Some(Vec::new())).etag;
    let held = ce_serve::request::held_tag(tag.as_deref());
    let next = serve_from_bundle(&bundle(false), Some(&m), "a.wasm", held.as_deref());
    assert_eq!(blob(next).0, "\"a");
}

#[test]
fn hashed_assets_are_kept_for_a_year() {
    let m = manifest(false, &[("assets/index-D_NtxU66.js", "c1")]);
    let Next::Blob(send) =
        serve_from_bundle(&bundle(false), Some(&m), "assets/index-D_NtxU66.js", None)
    else {
        panic!("a fetch was due")
    };
    assert!(send.immutable);
    let reply = send.fetched(Some(b"x".to_vec()));
    assert_eq!(reply.cache_control, text("public, max-age=31536000, immutable"));
    assert_eq!(reply.etag, text("\"c1\""));
}

#[test]
fn any_html_type_is_a_page() {
    let reply = respond_file(b"x".to_vec(), "text/html".to_string(), Some("c"), true);
    assert_eq!(reply.cache_control, text("no-cache, must-revalidate"));
    assert_eq!(reply.etag, None);
    assert_eq!(reply.body, format!("x{BRIDGE_TAG}").into_bytes());
    let reply = respond_file(b"x".to_vec(), "text/plain".to_string(), None, true);
    assert_eq!(reply.cache_control, text("public, max-age=31536000, immutable"));
    assert_eq!(reply.etag, None);
    assert_eq!(reply.body, b"x".to_vec());
}

#[test]
fn local_file_is_served() {
    let Next::Load(read) = serve_content("/a-12345678.js", None, None, "") else {
        panic!("a read was due")
    };
    let file = LocalFile { bytes: b"1".to_vec(), content_type: "text/javascript".to_string() };
    let reply = answer(read.loaded(Some(file), true));
    assert_eq!(reply.status, 200);
    assert_eq!(reply.content_type, text("text/javascript"));
    assert_eq!(reply.cache_control, text("public, max-age=31536000, immutable"));
    assert_eq!(reply.etag, None);
    assert_eq!(reply.body, b"1".to_vec());
}

#[test]
fn local_shell_stands_in() {
    let Next::Load(read) = serve_content("/route", None, None, "") else {
        panic!("a read was due")
    };
    let Next::Load(shell) = read.loaded(None, true) else { panic!("a read was due") };
    assert_eq!(shell.key, "200.html");
    let Next::Load(index) = shell.loaded(None, true) else { panic!("a read was due") };
    assert_eq!(index.key, "index.html");
    let file = LocalFile { bytes: Vec::new(), content_type: "other".to_string() };
    let reply = answer(index.loaded(Some(file), true));
    assert_eq!(reply.content_type, text(HTML));
    assert_eq!(reply.body, BRIDGE_TAG.as_bytes().to_vec());
}

#[test]
fn local_site_without_shell_answers_nothing() {
    let Next::Load(read) = serve_content("/route", None, None, "") else {
        panic!("a read was due")
    };
    assert_eq!(answer(read.loaded(None, false)).status, 404);
    let Next::Load(read) = serve_content("/route", None, None, "") else {
        panic!("a read was due")
    };
    let Next::Load(shell) = read.loaded(None, true) else { panic!("a read was due") };
    let Next::Load(index) = shell.loaded(None, true) else { panic!("a read was due") };
    assert_eq!(answer(index.loaded(None, true)).status, 404);
}

#[test]
fn directories_have_an_index() {
    assert_eq!(load_file("", false), "index.html");
    assert_eq!(load_file("", true), "index.html");
    assert_eq!(load_file("docs", true), "docs/index.html");
    assert_eq!(load_file("docs", false), "docs");
}

#[test]
fn installer_is_a_script() {
    let reply = serve_bridge_js("let x = 1;");
    assert_eq!(reply.status, 200);
    assert_eq!(reply.content_type, text("text/javascript; charset=utf-8"));
    assert_eq!(reply.body, b"let x = 1;".to_vec());
}

#[test]
fn local_file_has_the_type_of_its_path() {
    let file = local_file_read("site/docs/index.HTML", b"x".to_vec());
    assert_eq!(file.content_type, HTML);
    assert_eq!(file.bytes, b"x".to_vec());
    assert_eq!(local_file_read("site/js", Vec::new()).content_type, "application/octet-stream");
}
