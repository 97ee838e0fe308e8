//! Laws of the resolver: what the hub's replies come to, and what is kept.
use vstd::prelude::*;
use crate::bundle::{BundleRefView, ManifestView};
use crate::resolve::{HostStepView, HubReplyView, ManifestStepView, ResolverView};

verus! {

broadcast use vstd::string::group_string_axioms;

/// A bundle that the hub names is the host's as the hub sent it: app, manifest and whether it is a
/// single-page app. For thirty seconds it is what the host resolves to, unasked.
pub proof fn law_bundle_is_as_sent(
    r: ResolverView,
    host: Seq<char>,
    now: u128,
    b: BundleRefView,
    later: u128,
)
    requires
        b.app_id.len() > 0,
        b.cid.len() > 0,
    ensures
        crate::resolve::replied_bundle(HubReplyView::Replied(Some(b))) == Some(b),
        r.after_reply(host, now, HubReplyView::Replied(Some(b))).hosts.dom().contains(host),
        r.after_reply(host, now, HubReplyView::Replied(Some(b))).hosts[host] == (now, Some(b)),
        later < now + 30_000_000_000 ==> r.after_reply(
            host,
            now,
            HubReplyView::Replied(Some(b)),
        ).host_step(host, later) == HostStepView::Done(Some(b)),
{
}

/// A hub that fails, a reply that cannot be read, and one that leaves the app or the manifest
/// unnamed: the host has no bundle, and for thirty seconds that is not asked again.
pub proof fn law_other_replies_are_no_bundle(
    r: ResolverView,
    host: Seq<char>,
    now: u128,
    b: BundleRefView,
    reply: HubReplyView,
    later: u128,
)
    requires
        b.app_id.len() == 0 || b.cid.len() == 0,
        reply == HubReplyView::Failed || reply == HubReplyView::Replied(None) || reply
            == HubReplyView::Replied(Some(b)),
        later < now + 30_000_000_000,
    ensures
        crate::resolve::replied_bundle(reply) is None,
        r.after_reply(host, now, reply).host_step(host, later) == HostStepView::Done(None),
        r.after_search(host, now, None).host_step(host, later) == HostStepView::Done(None),
{
}

/// The question to the hub, for any host: where it goes, on which topic, what it says and how long
/// the reply is waited for.
pub open spec fn question(node: Seq<char>, host: Seq<char>) -> HostStepView {
    HostStepView::Ask {
        node,
        topic: "ce-hub/resolve/1"@,
        payload: vstd::utf8::encode_utf8(
            "{\"host\":"@ + crate::json::json_string(host) + "}"@,
        ),
        timeout_ms: 8000,
    }
}

/// A host of which nothing is known, or nothing younger than thirty seconds, is asked for at the
/// hub; where the hub is not known, that is searched for first.
pub proof fn law_unknown_host_is_asked_for(r: ResolverView, host: Seq<char>, now: u128)
    requires
        r.hosts.dom().contains(host) ==> now >= r.hosts[host].0 + 30_000_000_000,
    ensures
        r.hub matches Some(node) ==> r.host_step(host, now) == question(node, host),
        r.hub is None ==> r.host_step(host, now) == HostStepView::FindHub("ce-hub"@),
{
    reveal_strlit("{\"host\":");
    reveal_strlit("}");
    reveal_strlit("host");
    crate::laws::publishing::lemma_plain("host"@);
    let members = seq![("host"@, crate::json::json_string(host))];
    assert(crate::json::json_members(members) =~= crate::json::json_string("host"@) + seq![':']
        + crate::json::json_string(host));
    assert(crate::json::host_question(host) =~= "{\"host\":"@ + crate::json::json_string(host)
        + "}"@);
}

/// What is kept of a host is gone by for thirty seconds from when it was learned, and no longer.
pub proof fn law_known_host_is_not_asked_for(r: ResolverView, host: Seq<char>, now: u128)
    requires
        r.hosts.dom().contains(host),
    ensures
        now < r.hosts[host].0 + 30_000_000_000 <==> r.host_step(host, now) is Done,
        now < r.hosts[host].0 + 30_000_000_000 ==> r.host_step(host, now) == HostStepView::Done(
            r.hosts[host].1,
        ),
{
}

/// The first of the nodes that were found is the hub; where none was, the host has no bundle for now
/// and the hub stays as it was.
pub proof fn law_first_node_is_the_hub(
    r: ResolverView,
    host: Seq<char>,
    now: u128,
    nodes: Vec<String>,
    node: Seq<char>,
)
    ensures
        nodes@.len() > 0 ==> crate::resolve::first_node(Some(nodes)) == Some(nodes@[0]@),
        nodes@.len() == 0 ==> crate::resolve::first_node(Some(nodes)) is None,
        crate::resolve::first_node(None) is None,
        r.after_search(host, now, Some(node)) == (ResolverView { hub: Some(node), ..r }),
        r.after_search(host, now, None) == (ResolverView {
            hosts: r.hosts.insert(host, (now, None)),
            ..r
        }),
{
}

/// A reply changes what is known of its host, and of the hub only where the hub failed: then it is
/// forgotten. All else stays.
pub proof fn law_reply_changes_its_host(
    r: ResolverView,
    host: Seq<char>,
    now: u128,
    bundle: Option<BundleRefView>,
    other: Seq<char>,
)
    requires
        other != host,
    ensures
        ({
            let s = r.after_reply(host, now, HubReplyView::Replied(bundle));
            &&& s.hub == r.hub
            &&& s.node_url == r.node_url && s.manifests == r.manifests && s.blobs == r.blobs
                && s.blob_bytes == r.blob_bytes
            &&& s.hosts.dom().contains(other) == r.hosts.dom().contains(other)
            &&& r.hosts.dom().contains(other) ==> s.hosts[other] == r.hosts[other]
        }),
        ({
            let s = r.after_reply(host, now, HubReplyView::Failed);
            &&& s.hub is None
            &&& s.node_url == r.node_url && s.manifests == r.manifests && s.blobs == r.blobs
                && s.blob_bytes == r.blob_bytes
            &&& s.hosts.dom().contains(other) == r.hosts.dom().contains(other)
            &&& r.hosts.dom().contains(other) ==> s.hosts[other] == r.hosts[other]
        }),
{
}

/// A fetched file is kept as it came, beside the others while all that was put in fits 64 MiB, and
/// alone where it would not. Nothing but the files changes.
pub proof fn law_file_is_kept(r: ResolverView, cid: Seq<char>, bytes: Seq<u8>, other: Seq<char>)
    requires
        other != cid,
    ensures
        ({
            let s = r.with_blob(cid, bytes);
            let fits = r.blob_bytes + bytes.len() <= 64 * 1024 * 1024;
            &&& s.blobs.dom().contains(cid) && s.blobs[cid] == bytes
            &&& s.blobs.dom().contains(other) == (fits && r.blobs.dom().contains(other))
            &&& s.blobs.dom().contains(other) ==> s.blobs[other] == r.blobs[other]
            &&& s.blob_bytes == (if fits {
                r.blob_bytes + bytes.len()
            } else {
                bytes.len()
            })
            &&& s.node_url == r.node_url && s.hub == r.hub && s.hosts == r.hosts && s.manifests
                == r.manifests
        }),
{
}

/// A manifest that is kept is used; else its bytes, where they are kept, are decoded; else they are
/// fetched. A decoded manifest is kept as it is, and nothing else changes.
pub proof fn law_manifest_is_kept(
    r: ResolverView,
    cid: Seq<char>,
    m: ManifestView,
    other: Seq<char>,
)
    requires
        other != cid,
    ensures
        r.manifests.dom().contains(cid) ==> r.manifest_step(cid) == ManifestStepView::Done(
            r.manifests[cid],
        ),
        !r.manifests.dom().contains(cid) && r.blobs.dom().contains(cid) ==> r.manifest_step(cid)
            == ManifestStepView::Decode(r.blobs[cid]),
        !r.manifests.dom().contains(cid) && !r.blobs.dom().contains(cid) ==> r.manifest_step(cid)
            == ManifestStepView::Fetch,
        ({
            let s = r.with_manifest(cid, m);
            &&& s.manifests.dom().contains(cid) && s.manifests[cid] == m
            &&& s.manifests.dom().contains(other) == r.manifests.dom().contains(other)
            &&& r.manifests.dom().contains(other) ==> s.manifests[other] == r.manifests[other]
            &&& s.node_url == r.node_url && s.hub == r.hub && s.hosts == r.hosts && s.blobs
                == r.blobs && s.blob_bytes == r.blob_bytes
        }),
{
}

/// A new resolver knows where its node is, and nothing else.
pub proof fn law_new_resolver_knows_nothing(node_url: Seq<char>, text: Seq<char>)
    ensures
        ({
            let r = ResolverView::fresh(node_url);
            &&& r.node_url == node_url
            &&& r.hub is None
            &&& !r.hosts.dom().contains(text)
            &&& !r.manifests.dom().contains(text)
            &&& !r.blobs.dom().contains(text)
            &&& r.blob_bytes == 0
        }),
{
}

} // verus!
