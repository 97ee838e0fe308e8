//! Turning a host into content: what the edge asks the hub for, and what it keeps of the replies.
//!
//! A host's bundle may be repointed, so what the hub said is kept for a short while only, that
//! there is no bundle included. A manifest and a file are found by a hash of what they hold, so
//! what was fetched once stays right.
use vstd::hash_map::StringHashMap;
use vstd::prelude::*;
use crate::bundle::{BundleRef, BundleRefView, Manifest, ManifestView};
use crate::json::ask_for_host;

verus! {

broadcast use vstd::string::group_string_axioms;

/// The topic on which the hub answers.
pub const RESOLVE_TOPIC: &'static str = "ce-hub/resolve/1";

/// The service that the hub is found by.
pub const HUB_SERVICE: &'static str = "ce-hub";

/// How long the hub's answer on a host is kept, in nanoseconds: thirty seconds.
pub const RESOLVE_TTL: u128 = 30_000_000_000;

/// How long the hub is waited for, in milliseconds.
pub const REQUEST_TIMEOUT_MS: u64 = 8_000;

/// How many bytes of files are kept: 64 MiB. The files are dropped when one more would pass this.
pub const BLOB_CACHE_MAX_BYTES: usize = 67_108_864;

/// What the hub said of a host, and when, in nanoseconds on the edge's own clock.
struct HostEntry {
    at: u128,
    bundle: Option<BundleRef>,
}

/// What is known of hosts, manifests and files.
pub struct Resolver {
    node_url: String,
    hub_node: Option<String>,
    host_cache: StringHashMap<HostEntry>,
    manifest_cache: StringHashMap<Manifest>,
    blob_cache: StringHashMap<Vec<u8>>,
    blob_bytes: usize,
}

/// What is known of hosts, manifests and files, as the mappings that it is.
#[verifier::ext_equal]
pub struct ResolverView {
    /// Where the node is reached.
    pub node_url: Seq<char>,
    /// The hub's node, where it was found.
    pub hub: Option<Seq<char>>,
    /// What the hub said of each host, and when.
    pub hosts: Map<Seq<char>, (u128, Option<BundleRefView>)>,
    /// The manifest of each content id.
    pub manifests: Map<Seq<char>, ManifestView>,
    /// The file of each content id.
    pub blobs: Map<Seq<char>, Seq<u8>>,
    /// How many bytes were put into `blobs` since it was last empty.
    pub blob_bytes: nat,
}

/// An optional bundle reference, as the texts that it holds.
pub open spec fn bundle_texts(b: Option<BundleRef>) -> Option<BundleRefView> {
    match b {
        Some(b) => Some(b@),
        None => None,
    }
}

impl View for Resolver {
    type V = ResolverView;

    closed spec fn view(&self) -> ResolverView {
        ResolverView {
            node_url: self.node_url@,
            hub: crate::text::text(self.hub_node),
            hosts: self.host_cache@.map_values(|e: HostEntry| (e.at, bundle_texts(e.bundle))),
            manifests: self.manifest_cache@.map_values(|m: Manifest| m@),
            blobs: self.blob_cache@.map_values(|b: Vec<u8>| b@),
            blob_bytes: self.blob_bytes as nat,
        }
    }
}

/// The bytes that some files hold together.
pub open spec fn weight(blobs: Map<Seq<char>, Seq<u8>>) -> nat
    decreases blobs.dom().len(),
{
    if blobs.dom().finite() && blobs.dom().len() > 0 {
        let k = blobs.dom().choose();
        blobs[k].len() + weight(blobs.remove(k))
    } else {
        0
    }
}

/// A bundle reference that names both an app and a manifest.
pub open spec fn names_bundle(b: BundleRefView) -> bool {
    b.app_id.len() > 0 && b.cid.len() > 0
}

impl ResolverView {
    /// What holds at all times. Every kept bundle names an app and a manifest. The files kept hold
    /// no more bytes than were counted, and that is within the bound unless a single file passes
    /// it by itself.
    pub open spec fn valid(self) -> bool {
        &&& forall|host: Seq<char>| #[trigger]
            self.hosts.dom().contains(host) ==> (self.hosts[host].1 matches Some(b)
                ==> names_bundle(b))
        &&& self.blobs.dom().finite()
        &&& weight(self.blobs) <= self.blob_bytes
        &&& self.blob_bytes <= BLOB_CACHE_MAX_BYTES || self.blobs.dom().len() == 1
    }
}

/// A request to the hub: its node, the topic, what is sent, and how long the reply is waited for.
pub struct HubRequest {
    pub node: String,
    pub topic: &'static str,
    pub payload: Vec<u8>,
    pub timeout_ms: u64,
}

/// What a host needs to be resolved.
pub enum HostStep {
    /// Nothing: this is its bundle, if it has one.
    Done(Option<BundleRef>),
    /// The nodes that offer a service.
    FindHub(&'static str),
    /// The hub's reply.
    Ask(HubRequest),
}

/// What a host needs to be resolved, as the texts that it holds.
pub enum HostStepView {
    Done(Option<BundleRefView>),
    FindHub(Seq<char>),
    Ask { node: Seq<char>, topic: Seq<char>, payload: Seq<u8>, timeout_ms: u64 },
}

/// The search for the hub.
pub open spec fn hub_search() -> HostStepView {
    HostStepView::FindHub(HUB_SERVICE@)
}

/// The request that asks the hub at `node` for the bundle of `host`.
pub open spec fn hub_request(node: Seq<char>, host: Seq<char>) -> HostStepView {
    HostStepView::Ask {
        node,
        topic: RESOLVE_TOPIC@,
        payload: vstd::utf8::encode_utf8(crate::json::host_question(host)),
        timeout_ms: REQUEST_TIMEOUT_MS,
    }
}

impl View for HostStep {
    type V = HostStepView;

    open spec fn view(&self) -> HostStepView {
        match *self {
            HostStep::Done(b) => HostStepView::Done(bundle_texts(b)),
            HostStep::FindHub(service) => HostStepView::FindHub(service@),
            HostStep::Ask(request) => HostStepView::Ask {
                node: request.node@,
                topic: request.topic@,
                payload: request.payload@,
                timeout_ms: request.timeout_ms,
            },
        }
    }
}

/// What came of a request to the hub.
pub enum HubReply {
    /// It failed.
    Failed,
    /// The hub replied: a bundle reference, if the reply could be read as one.
    Replied(Option<BundleRef>),
}

/// What came of a request to the hub, as the texts that it holds.
pub enum HubReplyView {
    Failed,
    Replied(Option<BundleRefView>),
}

impl View for HubReply {
    type V = HubReplyView;

    open spec fn view(&self) -> HubReplyView {
        match *self {
            HubReply::Failed => HubReplyView::Failed,
            HubReply::Replied(b) => HubReplyView::Replied(bundle_texts(b)),
        }
    }
}

/// What a manifest needs to be had.
pub enum ManifestStep {
    /// Nothing: this is it.
    Done(Manifest),
    /// These bytes decoded.
    Decode(Vec<u8>),
    /// Its bytes fetched.
    Fetch,
}

/// What a manifest needs to be had, as what it holds.
pub enum ManifestStepView {
    Done(ManifestView),
    Decode(Seq<u8>),
    Fetch,
}

impl View for ManifestStep {
    type V = ManifestStepView;

    open spec fn view(&self) -> ManifestStepView {
        match *self {
            ManifestStep::Done(m) => ManifestStepView::Done(m@),
            ManifestStep::Decode(bytes) => ManifestStepView::Decode(bytes@),
            ManifestStep::Fetch => ManifestStepView::Fetch,
        }
    }
}

/// An optional manifest, as what it holds.
pub open spec fn manifest_view(m: Option<Manifest>) -> Option<ManifestView> {
    match m {
        Some(m) => Some(m@),
        None => None,
    }
}

/// The first of the nodes that were found.
pub open spec fn first_node(nodes: Option<Vec<String>>) -> Option<Seq<char>> {
    match nodes {
        Some(v) if v@.len() > 0 => Some(v@[0]@),
        _ => None,
    }
}

/// The bundle that a reply of the hub gives a host: none where the request failed, the reply could
/// not be read, or it leaves the app or the manifest unnamed.
pub open spec fn replied_bundle(reply: HubReplyView) -> Option<BundleRefView> {
    match reply {
        HubReplyView::Replied(Some(b)) if names_bundle(b) => Some(b),
        _ => None,
    }
}

impl ResolverView {
    /// A resolver that knows nothing yet.
    pub open spec fn fresh(node_url: Seq<char>) -> ResolverView {
        ResolverView {
            node_url,
            hub: None,
            hosts: Map::empty(),
            manifests: Map::empty(),
            blobs: Map::empty(),
            blob_bytes: 0,
        }
    }

    /// What the hub said of `host` is young enough at `now` to go by.
    pub open spec fn is_fresh(self, host: Seq<char>, now: u128) -> bool {
        self.hosts.dom().contains(host) && now < self.hosts[host].0 + RESOLVE_TTL
    }

    /// What a host needs to be resolved at `now`.
    pub open spec fn host_step(self, host: Seq<char>, now: u128) -> HostStepView {
        if self.is_fresh(host, now) {
            HostStepView::Done(self.hosts[host].1)
        } else {
            match self.hub {
                Some(node) => hub_request(node, host),
                None => hub_search(),
            }
        }
    }

    /// `host` has this bundle, or none, as of `now`.
    pub open spec fn learn_host(
        self,
        host: Seq<char>,
        now: u128,
        bundle: Option<BundleRefView>,
    ) -> ResolverView {
        ResolverView { hosts: self.hosts.insert(host, (now, bundle)), ..self }
    }

    /// What is known once the hub was looked for on behalf of `host`: its node, or else that the
    /// host has no bundle for now.
    pub open spec fn after_search(
        self,
        host: Seq<char>,
        now: u128,
        node: Option<Seq<char>>,
    ) -> ResolverView {
        match node {
            Some(n) => ResolverView { hub: Some(n), ..self },
            None => self.learn_host(host, now, None),
        }
    }

    /// What is known once the hub was asked for `host`: the host's bundle, or that it has none for
    /// now. A hub that could not be reached is forgotten, so that the next request finds it anew.
    pub open spec fn after_reply(
        self,
        host: Seq<char>,
        now: u128,
        reply: HubReplyView,
    ) -> ResolverView {
        let known = if reply is Failed {
            ResolverView { hub: None, ..self }
        } else {
            self
        };
        known.learn_host(host, now, replied_bundle(reply))
    }

    /// What is known once the file of `cid` was fetched. Where it would take the bytes counted past
    /// the bound, the other files are dropped first.
    pub open spec fn with_blob(self, cid: Seq<char>, bytes: Seq<u8>) -> ResolverView {
        if self.blob_bytes + bytes.len() > BLOB_CACHE_MAX_BYTES {
            ResolverView {
                blobs: Map::empty().insert(cid, bytes),
                blob_bytes: bytes.len(),
                ..self
            }
        } else {
            ResolverView {
                blobs: self.blobs.insert(cid, bytes),
                blob_bytes: self.blob_bytes + bytes.len(),
                ..self
            }
        }
    }

    /// What a manifest needs to be had.
    pub open spec fn manifest_step(self, cid: Seq<char>) -> ManifestStepView {
        if self.manifests.dom().contains(cid) {
            ManifestStepView::Done(self.manifests[cid])
        } else if self.blobs.dom().contains(cid) {
            ManifestStepView::Decode(self.blobs[cid])
        } else {
            ManifestStepView::Fetch
        }
    }

    /// What is known once the manifest of `cid` was decoded.
    pub open spec fn with_manifest(self, cid: Seq<char>, m: ManifestView) -> ResolverView {
        ResolverView { manifests: self.manifests.insert(cid, m), ..self }
    }
}

proof fn lemma_weight_of(m: Map<Seq<char>, Seq<u8>>, k: Seq<char>)
    requires
        m.dom().finite(),
        m.dom().contains(k),
    ensures
        weight(m) == m[k].len() + weight(m.remove(k)),
    decreases m.dom().len(),
{
    let c = m.dom().choose();
    assert(m.dom().contains(c));
    if k != c {
        lemma_weight_of(m.remove(c), k);
        lemma_weight_of(m.remove(k), c);
        assert(m.remove(c).remove(k) =~= m.remove(k).remove(c));
    }
}

proof fn lemma_weight_insert(m: Map<Seq<char>, Seq<u8>>, k: Seq<char>, v: Seq<u8>)
    requires
        m.dom().finite(),
    ensures
        weight(m.insert(k, v)) <= weight(m) + v.len(),
{
    let n = m.insert(k, v);
    lemma_weight_of(n, k);
    if m.dom().contains(k) {
        lemma_weight_of(m, k);
        assert(n.remove(k) =~= m.remove(k));
    } else {
        assert(n.remove(k) =~= m);
    }
}

proof fn lemma_with_blob_valid(r: ResolverView, cid: Seq<char>, bytes: Seq<u8>)
    requires
        r.valid(),
    ensures
        r.with_blob(cid, bytes).valid(),
{
    lemma_weight_insert(r.blobs, cid, bytes);
    let none = Map::<Seq<char>, Seq<u8>>::empty();
    assert(none.dom().len() == 0);
    assert(weight(none) == 0);
    lemma_weight_insert(none, cid, bytes);
    assert(none.insert(cid, bytes).dom().len() == 1);
}

impl Resolver {
    /// A resolver that knows nothing yet.
    pub fn new(node_url: String) -> (r: Resolver)
        ensures
            r@ == ResolverView::fresh(node_url@),
            r@.valid(),
    {
        let r = Resolver {
            node_url,
            hub_node: None,
            host_cache: StringHashMap::new(),
            manifest_cache: StringHashMap::new(),
            blob_cache: StringHashMap::new(),
            blob_bytes: 0,
        };
        assert(r@ =~= ResolverView::fresh(node_url@));
        r
    }

    /// Where the node is reached.
    pub fn node_url(&self) -> (r: &str)
        ensures
            r@ == self@.node_url,
    {
        self.node_url.as_str()
    }

    /// What a host needs to be resolved. What the hub said last is gone by for `RESOLVE_TTL`, also
    /// where it said that there is no bundle.
    pub fn resolve_host(&self, host: &str, now: u128) -> (r: HostStep)
        ensures
            r@ == self@.host_step(host@, now),
    {
        if let Some(entry) = self.host_cache.get(host) {
            if now < entry.at || now - entry.at < RESOLVE_TTL {
                let bundle = match &entry.bundle {
                    Some(b) => Some(b.clone()),
                    None => None,
                };
                return HostStep::Done(bundle);
            }
        }
        self.ask(host)
    }

    /// The request to the hub, or the search for it.
    fn ask(&self, host: &str) -> (r: HostStep)
        ensures
            r@ == match self@.hub {
                Some(node) => hub_request(node, host@),
                None => hub_search(),
            },
    {
        match &self.hub_node {
            Some(node) => HostStep::Ask(
                HubRequest {
                    node: node.clone(),
                    topic: RESOLVE_TOPIC,
                    payload: ask_for_host(host),
                    timeout_ms: REQUEST_TIMEOUT_MS,
                },
            ),
            None => HostStep::FindHub(HUB_SERVICE),
        }
    }

    fn keep_host(&mut self, host: &str, now: u128, bundle: Option<BundleRef>)
        ensures
            final(self)@ == old(self)@.learn_host(host@, now, bundle_texts(bundle)),
    {
        self.host_cache.insert(host.to_owned(), HostEntry { at: now, bundle });
        assert(self@.hosts =~= old(self)@.hosts.insert(host@, (now, bundle_texts(bundle))));
        assert(self@ =~= old(self)@.learn_host(host@, now, bundle_texts(bundle)));
    }

    /// Goes on with the nodes that offer `HUB_SERVICE`, if they could be found: the first is the
    /// hub from now on. Where there is none, the host has no bundle for now.
    pub fn hub_node(&mut self, host: &str, nodes: Option<Vec<String>>, now: u128) -> (r: HostStep)
        requires
            old(self)@.valid(),
        ensures
            final(self)@.valid(),
            final(self)@ == old(self)@.after_search(host@, now, first_node(nodes)),
            r@ == match first_node(nodes) {
                Some(node) => hub_request(node, host@),
                None => HostStepView::Done(None),
            },
    {
        if let Some(v) = nodes {
            if v.len() > 0 {
                self.hub_node = Some(v[0].clone());
                assert(self@ =~= old(self)@.after_search(host@, now, first_node(nodes)));
                return self.ask(host);
            }
        }
        self.keep_host(host, now, None);
        HostStep::Done(None)
    }

    /// Goes on with the hub's reply: the host has the bundle it names, or none for now.
    pub fn hub_replied(&mut self, host: &str, reply: HubReply, now: u128) -> (r: Option<BundleRef>)
        requires
            old(self)@.valid(),
        ensures
            final(self)@.valid(),
            final(self)@ == old(self)@.after_reply(host@, now, reply@),
            bundle_texts(r) == replied_bundle(reply@),
    {
        let bundle = match reply {
            HubReply::Failed => {
                self.hub_node = None;
                None
            },
            HubReply::Replied(Some(b)) => if b.app_id.as_str().is_empty()
                || b.cid.as_str().is_empty() {
                None
            } else {
                Some(b)
            },
            HubReply::Replied(None) => None,
        };
        let kept = match &bundle {
            Some(b) => Some(b.clone()),
            None => None,
        };
        self.keep_host(host, now, kept);
        bundle
    }

    /// The file of a content id, where it is kept; else it has to be fetched.
    pub fn blob(&self, cid: &str) -> (r: Option<Vec<u8>>)
        ensures
            match r {
                Some(bytes) => self@.blobs.dom().contains(cid@) && bytes@ == self@.blobs[cid@],
                None => !self@.blobs.dom().contains(cid@),
            },
    {
        match self.blob_cache.get(cid) {
            Some(bytes) => Some(vstd::slice::slice_to_vec(bytes.as_slice())),
            None => None,
        }
    }

    /// Goes on with the file of a content id, if it could be fetched: it is kept from now on.
    pub fn blob_fetched(&mut self, cid: &str, fetched: Option<Vec<u8>>) -> (r: Option<Vec<u8>>)
        requires
            old(self)@.valid(),
        ensures
            final(self)@.valid(),
            r == fetched,
            final(self)@ == match fetched {
                Some(bytes) => old(self)@.with_blob(cid@, bytes@),
                None => old(self)@,
            },
    {
        if let Some(bytes) = &fetched {
            let size = bytes.len();
            if size > BLOB_CACHE_MAX_BYTES || self.blob_bytes > BLOB_CACHE_MAX_BYTES - size {
                self.blob_cache.clear();
                self.blob_bytes = 0;
            }
            self.blob_bytes = self.blob_bytes + size;
            self.blob_cache.insert(
                cid.to_owned(),
                vstd::slice::slice_to_vec(bytes.as_slice()),
            );
            proof {
                let then = old(self)@.with_blob(cid@, bytes@);
                assert(self@.blobs =~= then.blobs);
                assert(self@ =~= then);
                lemma_with_blob_valid(old(self)@, cid@, bytes@);
            }
        }
        fetched
    }

    /// What a manifest needs to be had: where it is not kept, its bytes, and those decoded.
    pub fn manifest(&self, cid: &str) -> (r: ManifestStep)
        ensures
            r@ == self@.manifest_step(cid@),
    {
        if let Some(m) = self.manifest_cache.get(cid) {
            return ManifestStep::Done(m.clone());
        }
        match self.blob(cid) {
            Some(bytes) => ManifestStep::Decode(bytes),
            None => ManifestStep::Fetch,
        }
    }

    /// Goes on with a manifest, if its bytes could be decoded: it is kept for good.
    pub fn manifest_decoded(&mut self, cid: &str, decoded: Option<Manifest>) -> (r: Option<Manifest>)
        requires
            old(self)@.valid(),
        ensures
            final(self)@.valid(),
            manifest_view(r) == manifest_view(decoded),
            final(self)@ == match decoded {
                Some(m) => old(self)@.with_manifest(cid@, m@),
                None => old(self)@,
            },
    {
        if let Some(m) = &decoded {
            self.manifest_cache.insert(cid.to_owned(), m.clone());
            assert(self@.manifests =~= old(self)@.manifests.insert(cid@, m@));
            assert(self@ =~= old(self)@.with_manifest(cid@, m@));
        }
        decoded
    }
}

/// What the hub said of a host is gone by while it is young, that there is no bundle included: the
/// hub is not asked again before `RESOLVE_TTL` is over.
pub proof fn law_answer_is_kept(
    r: ResolverView,
    host: Seq<char>,
    now: u128,
    reply: HubReplyView,
    later: u128,
)
    requires
        later < now + RESOLVE_TTL,
    ensures
        r.after_reply(host, now, reply).host_step(host, later) == HostStepView::Done(
            replied_bundle(reply),
        ),
        r.after_search(host, now, None).host_step(host, later) == HostStepView::Done(None),
{
}

/// Once `RESOLVE_TTL` is over the hub is asked again, so that a bundle can be repointed.
pub proof fn law_answer_expires(
    r: ResolverView,
    host: Seq<char>,
    now: u128,
    reply: HubReplyView,
    later: u128,
)
    requires
        later >= now + RESOLVE_TTL,
    ensures
        !(r.after_reply(host, now, reply).host_step(host, later) is Done),
        !(r.after_search(host, now, None).host_step(host, later) is Done),
{
}

/// The answer on one host says nothing on another.
pub proof fn law_hosts_are_apart(
    r: ResolverView,
    host: Seq<char>,
    now: u128,
    reply: HubReplyView,
    other: Seq<char>,
    later: u128,
)
    requires
        other != host,
    ensures
        r.after_reply(host, now, reply).is_fresh(other, later) == r.is_fresh(other, later),
        r.is_fresh(other, later) ==> r.after_reply(host, now, reply).host_step(other, later)
            == r.host_step(other, later),
{
}

/// A hub that was found is the one that is asked, for any host on which there is no young answer.
pub proof fn law_found_hub_is_asked(
    r: ResolverView,
    host: Seq<char>,
    now: u128,
    node: Seq<char>,
    other: Seq<char>,
    later: u128,
)
    requires
        !r.is_fresh(other, later),
    ensures
        r.after_search(host, now, Some(node)).host_step(other, later) == hub_request(node, other),
{
}

/// A hub that could not be reached is searched for anew, for any host on which there is no young
/// answer; one that replied is asked again.
pub proof fn law_unreachable_hub_is_searched(
    r: ResolverView,
    host: Seq<char>,
    now: u128,
    reply: HubReplyView,
    other: Seq<char>,
    later: u128,
)
    requires
        !r.after_reply(host, now, reply).is_fresh(other, later),
    ensures
        reply is Failed ==> r.after_reply(host, now, reply).host_step(other, later)
            == hub_search(),
        !(reply is Failed) ==> r.after_reply(host, now, reply).hub == r.hub,
{
}

/// A host only ever resolves to a bundle that names an app and a manifest.
pub proof fn law_resolved_bundle_is_named(
    r: ResolverView,
    host: Seq<char>,
    now: u128,
    bundle: BundleRefView,
)
    requires
        r.valid(),
        r.host_step(host, now) == HostStepView::Done(Some(bundle)),
    ensures
        bundle.app_id.len() > 0,
        bundle.cid.len() > 0,
{
}

/// A file that was fetched is there as it came, and a manifest that was decoded likewise.
pub proof fn law_reads_give_back_writes(
    r: ResolverView,
    cid: Seq<char>,
    bytes: Seq<u8>,
    m: ManifestView,
)
    ensures
        r.with_blob(cid, bytes).blobs.dom().contains(cid),
        r.with_blob(cid, bytes).blobs[cid] == bytes,
        r.with_manifest(cid, m).manifest_step(cid) == ManifestStepView::Done(m),
        !r.manifests.dom().contains(cid) ==> r.with_blob(cid, bytes).manifest_step(cid)
            == ManifestStepView::Decode(bytes),
{
}

/// A manifest is kept for good: nothing that is learned later takes it away or changes it, but for
/// another manifest of the same content id.
pub proof fn law_manifests_stay(
    r: ResolverView,
    cid: Seq<char>,
    host: Seq<char>,
    now: u128,
    node: Option<Seq<char>>,
    reply: HubReplyView,
    other: Seq<char>,
    bytes: Seq<u8>,
    m: ManifestView,
)
    requires
        r.manifests.dom().contains(cid),
        other != cid,
    ensures
        r.after_search(host, now, node).manifest_step(cid) == r.manifest_step(cid),
        r.after_reply(host, now, reply).manifest_step(cid) == r.manifest_step(cid),
        r.with_blob(cid, bytes).manifest_step(cid) == r.manifest_step(cid),
        r.with_blob(other, bytes).manifest_step(cid) == r.manifest_step(cid),
        r.with_manifest(other, m).manifest_step(cid) == r.manifest_step(cid),
{
}

/// The files that are kept hold no more than `BLOB_CACHE_MAX_BYTES`, unless it is a single file
/// that is larger by itself.
pub proof fn law_kept_files_are_bounded(r: ResolverView)
    requires
        r.valid(),
    ensures
        weight(r.blobs) <= BLOB_CACHE_MAX_BYTES || r.blobs.dom().len() == 1,
{
}

/// While the bound is not passed, no file is dropped.
pub proof fn law_files_stay_within_bound(
    r: ResolverView,
    cid: Seq<char>,
    bytes: Seq<u8>,
    other: Seq<char>,
)
    requires
        r.blob_bytes + bytes.len() <= BLOB_CACHE_MAX_BYTES,
        r.blobs.dom().contains(other),
        other != cid,
    ensures
        r.with_blob(cid, bytes).blobs.dom().contains(other),
        r.with_blob(cid, bytes).blobs[other] == r.blobs[other],
{
}

/// Where a file is fetched only while it is not kept, the bytes counted are the bytes kept: that is
/// so at first, stays so as such files come, and nothing else touches either.
pub proof fn law_count_is_exact(
    r: ResolverView,
    cid: Seq<char>,
    bytes: Seq<u8>,
    node_url: Seq<char>,
    host: Seq<char>,
    now: u128,
    node: Option<Seq<char>>,
    reply: HubReplyView,
    m: ManifestView,
)
    requires
        r.valid(),
        r.blob_bytes == weight(r.blobs),
        !r.blobs.dom().contains(cid),
    ensures
        ResolverView::fresh(node_url).blob_bytes == weight(ResolverView::fresh(node_url).blobs),
        r.with_blob(cid, bytes).blob_bytes == weight(r.with_blob(cid, bytes).blobs),
        r.after_search(host, now, node).blob_bytes == weight(
            r.after_search(host, now, node).blobs,
        ),
        r.after_reply(host, now, reply).blob_bytes == weight(
            r.after_reply(host, now, reply).blobs,
        ),
        r.with_manifest(cid, m).blob_bytes == weight(r.with_manifest(cid, m).blobs),
{
    let none = Map::<Seq<char>, Seq<u8>>::empty();
    assert(none.dom().len() == 0);
    assert(weight(none) == 0);
    lemma_weight_of(none.insert(cid, bytes), cid);
    assert(none.insert(cid, bytes).remove(cid) =~= none);
    lemma_weight_of(r.blobs.insert(cid, bytes), cid);
    assert(r.blobs.insert(cid, bytes).remove(cid) =~= r.blobs);
}

} // verus!
