use ce_serve::bundle::{BundleRef, Manifest};
use ce_serve::publish::{bundle_record, manifest_document, path_in_bundle, read_args, record_url};
use ce_serve::request::req_host;
use ce_serve::serve::{serve_content, Next};
use ce_serve::table::FileTable;

fn args(list: &[&str]) -> Vec<String> {
    list.iter().map(|a| a.to_string()).collect()
}

#[test]
fn command_line_is_read() {
    let plan = read_args(&args(&["build", "CE-net.com", "ce-net-site"])).unwrap();
    assert_eq!(plan.dir, "build");
    assert_eq!(plan.host, "ce-net.com");
    assert_eq!(plan.app_id, "ce-net-site");
    assert!(plan.spa);
}

#[test]
fn switches_may_stand_anywhere() {
    let plan = read_args(&args(&["--no-spa", "d", "--other", "H", "App", "more"])).unwrap();
    assert_eq!(plan.dir, "d");
    assert_eq!(plan.host, "h");
    assert_eq!(plan.app_id, "App");
    assert!(!plan.spa);
    assert!(read_args(&args(&["d", "h", "a", "--no-spa-x"])).unwrap().spa);
}

#[test]
fn missing_arguments_are_refused() {
    assert!(read_args(&args(&[])).is_none());
    assert!(read_args(&args(&["d", "h"])).is_none());
    assert!(read_args(&args(&["d", "h", "--no-spa"])).is_none());
}

#[test]
fn backslashes_become_slashes() {
    assert_eq!(path_in_bundle("a\\b/c\\d.js"), "a/b/c/d.js");
    assert_eq!(path_in_bundle("a.js"), "a.js");
}

#[test]
fn manifest_is_json() {
    let mut files = FileTable::new();
    files.insert("index.html".to_string(), "c2".to_string());
    files.insert("a\"b.js".to_string(), "c1".to_string());
    assert_eq!(
        String::from_utf8(manifest_document(true, &files)).unwrap(),
        "{\"files\":{\"a\\\"b.js\":\"c1\",\"index.html\":\"c2\"},\"spa\":true,\"v\":1}"
    );
    let value: serde_json::Value =
        serde_json::from_slice(&manifest_document(false, &files)).unwrap();
    assert_eq!(value["v"], 1);
    assert_eq!(value["spa"], false);
    assert_eq!(value["files"]["a\"b.js"], "c1");
    assert_eq!(
        manifest_document(false, &FileTable::new()),
        b"{\"files\":{},\"spa\":false,\"v\":1}".to_vec()
    );
}

#[test]
fn manifest_does_not_depend_on_the_walk() {
    let mut forward = FileTable::new();
    let mut backward = FileTable::new();
    let files = [("b", "1"), ("a", "2"), ("c/d", "3")];
    for (k, v) in files {
        forward.insert(k.to_string(), v.to_string());
    }
    for (k, v) in files.iter().rev() {
        backward.insert(k.to_string(), v.to_string());
    }
    assert_eq!(manifest_document(true, &forward), manifest_document(true, &backward));
}

#[test]
fn record_is_json() {
    assert_eq!(
        String::from_utf8(bundle_record("app", "c\\id", false)).unwrap(),
        "{\"app_id\":\"app\",\"cid\":\"c\\\\id\",\"spa\":false}"
    );
}

#[test]
fn record_goes_to_its_host() {
    assert_eq!(
        record_url("http://127.0.0.1:8970", "ce-net.com"),
        "http://127.0.0.1:8970/bundles/ce-net.com"
    );
}

#[test]
fn published_host_is_the_one_looked_up() {
    let plan = read_args(&args(&["d", "CE-Net.com", "a"])).unwrap();
    assert_eq!(req_host(Some("ce-NET.com:443"), ""), plan.host);
    assert_eq!(req_host(Some("CE-Net.com"), "other"), plan.host);
    let plan = read_args(&args(&["d", "[2001:DB8::1]", "a"])).unwrap();
    assert_eq!(req_host(Some("[2001:db8::1]:8790"), ""), plan.host);
    assert_eq!(req_host(Some("[2001:db8::1]"), ""), plan.host);
}

#[test]
fn published_site_is_served() {
    let plan = read_args(&args(&["build", "Site.example", "app"])).unwrap();
    let mut files = FileTable::new();
    files.insert(path_in_bundle("pkg\\app.wasm"), "cid-wasm".to_string());
    files.insert(path_in_bundle("index.html"), "cid-page".to_string());

    let document: serde_json::Value =
        serde_json::from_slice(&manifest_document(plan.spa, &files)).unwrap();
    let record: serde_json::Value =
        serde_json::from_slice(&bundle_record(&plan.app_id, "cid-bundle", plan.spa)).unwrap();
    let mut table = FileTable::new();
    for (path, cid) in document["files"].as_object().unwrap() {
        table.insert(path.clone(), cid.as_str().unwrap().to_string());
    }
    let manifest = Manifest { spa: document["spa"].as_bool().unwrap(), files: table };

    for (path, cid, ct) in [
        ("/pkg/app.wasm", "cid-wasm", "application/wasm"),
        ("/", "cid-page", "text/html; charset=utf-8"),
        ("/some/route", "cid-page", "text/html; charset=utf-8"),
    ] {
        let Next::Resolve(lookup) = serve_content(path, Some("SITE.example:443"), None, "") else {
            panic!("a lookup was due")
        };
        assert_eq!(lookup.host, plan.host);
        let bundle = BundleRef {
            app_id: record["app_id"].as_str().unwrap().to_string(),
            cid: record["cid"].as_str().unwrap().to_string(),
            spa: record["spa"].as_bool().unwrap(),
        };
        let Next::Manifest(open) = lookup.resolved(Some(bundle)) else {
            panic!("a manifest was due")
        };
        assert_eq!(open.bundle.cid, "cid-bundle");
        let Next::Blob(send) = open.opened(Some(&manifest)) else { panic!("a fetch was due") };
        assert_eq!(send.target.cid, cid);
        assert_eq!(send.target.content_type, ct);
    }
}
