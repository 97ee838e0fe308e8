use ce_serve::bundle::{BundleRef, Manifest};
use ce_serve::resolve::{
    HostStep, HubReply, ManifestStep, Resolver, BLOB_CACHE_MAX_BYTES, RESOLVE_TTL,
};
use ce_serve::table::FileTable;

fn resolver() -> Resolver {
    Resolver::new("http://node".to_string())
}

fn bundle(app_id: &str, cid: &str) -> BundleRef {
    BundleRef { app_id: app_id.to_string(), cid: cid.to_string(), spa: true }
}

fn done(step: HostStep) -> Option<BundleRef> {
    match step {
        HostStep::Done(b) => b,
        _ => panic!("the host was due to be known"),
    }
}

#[test]
fn constants_of_the_protocol() {
    assert_eq!(ce_serve::resolve::RESOLVE_TOPIC, "ce-hub/resolve/1");
    assert_eq!(ce_serve::resolve::HUB_SERVICE, "ce-hub");
    assert_eq!(RESOLVE_TTL, 30 * 1_000_000_000);
    assert_eq!(ce_serve::resolve::REQUEST_TIMEOUT_MS, 8000);
    assert_eq!(BLOB_CACHE_MAX_BYTES, 64 * 1024 * 1024);
}

#[test]
fn hub_is_found_and_asked() {
    let mut r = resolver();
    assert_eq!(r.node_url(), "http://node");
    assert!(matches!(r.resolve_host("ce-net.com", 0), HostStep::FindHub("ce-hub")));
    let nodes = vec!["n1".to_string(), "n2".to_string()];
    match r.hub_node("ce-net.com", Some(nodes), 0) {
        HostStep::Ask(request) => {
            assert_eq!(request.node, "n1");
            assert_eq!(request.topic, "ce-hub/resolve/1");
            assert_eq!(request.timeout_ms, 8000);
            assert_eq!(request.payload, b"{\"host\":\"ce-net.com\"}".to_vec());
        }
        _ => panic!("a request was due"),
    }
    match r.resolve_host("other", 0) {
        HostStep::Ask(request) => assert_eq!(request.payload, b"{\"host\":\"other\"}".to_vec()),
        _ => panic!("a request was due"),
    }
}

#[test]
fn question_escapes_the_host() {
    let mut r = resolver();
    match r.hub_node("a\"\\\n\u{1}\u{1f}\u{8}\u{c}\r\t\u{7f}\u{e9}/", Some(vec!["n".to_string()]), 0) {
        HostStep::Ask(request) => assert_eq!(
            String::from_utf8(request.payload).unwrap(),
            "{\"host\":\"a\\\"\\\\\\n\\u0001\\u001f\\b\\f\\r\\t\u{7f}\u{e9}/\"}"
        ),
        _ => panic!("a request was due"),
    }
}

#[test]
fn missing_hub_is_remembered_for_a_while() {
    let mut r = resolver();
    assert!(done(r.hub_node("h", None, 100)).is_none());
    assert!(done(r.resolve_host("h", 100)).is_none());
    assert!(matches!(r.resolve_host("h", 100 + RESOLVE_TTL), HostStep::FindHub("ce-hub")));
    assert!(matches!(r.resolve_host("g", 100), HostStep::FindHub("ce-hub")));
    assert!(done(r.hub_node("g", Some(Vec::new()), 100)).is_none());
    assert!(done(r.resolve_host("g", 100)).is_none());
}

#[test]
fn answer_is_kept_for_its_time() {
    let mut r = resolver();
    let _ = r.hub_node("h", Some(vec!["n".to_string()]), 5);
    let found = r.hub_replied("h", HubReply::Replied(Some(bundle("app", "c"))), 7).unwrap();
    assert_eq!((found.app_id.as_str(), found.cid.as_str(), found.spa), ("app", "c", true));
    assert_eq!(done(r.resolve_host("h", 7)).unwrap().cid, "c");
    assert_eq!(done(r.resolve_host("h", 6)).unwrap().cid, "c");
    assert_eq!(done(r.resolve_host("h", 6 + RESOLVE_TTL)).unwrap().cid, "c");
    assert!(matches!(r.resolve_host("h", 7 + RESOLVE_TTL), HostStep::Ask(_)));
    let _ = r.hub_replied("h", HubReply::Replied(Some(bundle("app", "d"))), 8 + RESOLVE_TTL);
    assert_eq!(done(r.resolve_host("h", 9 + RESOLVE_TTL)).unwrap().cid, "d");
}

#[test]
fn unusable_replies_are_no_bundle() {
    let mut r = resolver();
    let _ = r.hub_node("h", Some(vec!["n".to_string()]), 0);
    assert!(r.hub_replied("a", HubReply::Replied(None), 0).is_none());
    assert!(r.hub_replied("b", HubReply::Replied(Some(bundle("", "c"))), 0).is_none());
    assert!(r.hub_replied("c", HubReply::Replied(Some(bundle("app", ""))), 0).is_none());
    for host in ["a", "b", "c"] {
        assert!(done(r.resolve_host(host, 1)).is_none());
    }
    assert!(matches!(r.resolve_host("d", 1), HostStep::Ask(_)));
}

#[test]
fn unreachable_hub_is_forgotten() {
    let mut r = resolver();
    let _ = r.hub_node("h", Some(vec!["n".to_string()]), 0);
    assert!(r.hub_replied("h", HubReply::Failed, 0).is_none());
    assert!(done(r.resolve_host("h", 1)).is_none());
    assert!(matches!(r.resolve_host("g", 1), HostStep::FindHub("ce-hub")));
}

#[test]
fn files_are_kept_as_they_came() {
    let mut r = resolver();
    assert_eq!(r.blob("c"), None);
    assert_eq!(r.blob_fetched("c", None), None);
    assert_eq!(r.blob("c"), None);
    assert_eq!(r.blob_fetched("c", Some(vec![1, 2])), Some(vec![1, 2]));
    assert_eq!(r.blob("c"), Some(vec![1, 2]));
    assert_eq!(r.blob("d"), None);
}

#[test]
fn files_are_dropped_past_the_bound() {
    let half = BLOB_CACHE_MAX_BYTES / 2;
    let mut r = resolver();
    r.blob_fetched("a", Some(vec![0; half]));
    r.blob_fetched("b", Some(vec![1; half]));
    assert!(r.blob("a").is_some() && r.blob("b").is_some());
    r.blob_fetched("c", Some(vec![2]));
    assert!(r.blob("a").is_none() && r.blob("b").is_none());
    assert_eq!(r.blob("c"), Some(vec![2]));
    r.blob_fetched("huge", Some(vec![3; BLOB_CACHE_MAX_BYTES + 1]));
    assert!(r.blob("c").is_none());
    assert_eq!(r.blob("huge").map(|b| b.len()), Some(BLOB_CACHE_MAX_BYTES + 1));
    r.blob_fetched("d", Some(Vec::new()));
    assert!(r.blob("huge").is_none());
    assert_eq!(r.blob("d"), Some(Vec::new()));
}

#[test]
fn manifests_are_kept_for_good() {
    let mut r = resolver();
    assert!(matches!(r.manifest("m"), ManifestStep::Fetch));
    r.blob_fetched("m", Some(b"{}".to_vec()));
    match r.manifest("m") {
        ManifestStep::Decode(bytes) => assert_eq!(bytes, b"{}".to_vec()),
        _ => panic!("bytes were due"),
    }
    assert!(r.manifest_decoded("m", None).is_none());
    assert!(matches!(r.manifest("m"), ManifestStep::Decode(_)));
    let mut files = FileTable::new();
    files.insert("a".to_string(), "1".to_string());
    let m = r.manifest_decoded("m", Some(Manifest { spa: true, files })).unwrap();
    assert_eq!(m.files.get("a").map(|s| s.as_str()), Some("1"));
    r.blob_fetched("huge", Some(vec![0; BLOB_CACHE_MAX_BYTES + 1]));
    match r.manifest("m") {
        ManifestStep::Done(m) => {
            assert!(m.spa);
            assert_eq!(m.files.get("a").map(|s| s.as_str()), Some("1"));
        }
        _ => panic!("a manifest was due"),
    }
}
