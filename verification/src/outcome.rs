//! What a request is answered in the end, and what holds of every answer.
use vstd::prelude::*;
use crate::bundle::{BundleRefView, ManifestView, INDEX_PAGE, SHELL_PAGE};
use crate::path::HTML_TYPE;
use crate::reply::{ReplyView, HASHED_CACHING, PAGE_CACHING, STABLE_CACHING};
use crate::serve::{Attempt, NextView};

verus! {

broadcast use vstd::string::group_string_axioms;

/// What the mesh and the disk have to give while a request is served.
pub struct World {
    /// The bundle of a host.
    pub bundle: spec_fn(Seq<char>) -> Option<BundleRefView>,
    /// The manifest of a content id.
    pub manifest: spec_fn(Seq<char>) -> Option<ManifestView>,
    /// The bytes of a content id.
    pub blob: spec_fn(Seq<char>) -> Option<Seq<u8>>,
    /// The file of the local site that a key is read from, and its media type.
    pub file: spec_fn(Seq<char>) -> Option<(Seq<u8>, Seq<char>)>,
    /// Whether the local site is a single-page one.
    pub spa: bool,
}

/// How many steps are left at most.
pub open spec fn steps_left(next: NextView) -> nat {
    match next {
        NextView::Answer(_) => 0,
        NextView::Blob { .. } => 1,
        NextView::Manifest { .. } => 2,
        NextView::Load { attempt: Attempt::Index, .. } => 1,
        NextView::Load { attempt: Attempt::Shell, .. } => 2,
        NextView::Load { attempt: Attempt::Own, .. } => 3,
        NextView::Resolve { .. } => 4,
    }
}

/// One step of a request: the outside work it needs is done, and it is resumed.
pub open spec fn step(next: NextView, world: World) -> NextView {
    match next {
        NextView::Answer(_) => next,
        NextView::Resolve { host, key, held } => crate::serve::resolved_step(
            key,
            held,
            (world.bundle)(host),
        ),
        NextView::Manifest { bundle, key, held } => crate::serve::bundle_step(
            bundle,
            (world.manifest)(bundle.cid),
            key,
            held,
        ),
        NextView::Blob { cid, content_type, immutable } => NextView::Answer(
            crate::serve::fetched_reply(cid, content_type, immutable, (world.blob)(cid)),
        ),
        NextView::Load { key, attempt } => crate::serve::dir_step(
            key,
            attempt,
            (world.file)(key),
            world.spa,
        ),
    }
}

/// The answer that a request comes to.
pub open spec fn outcome(next: NextView, world: World) -> ReplyView
    decreases steps_left(next),
{
    match next {
        NextView::Answer(reply) => reply,
        _ => outcome(step(next, world), world),
    }
}

/// The answer from a bundle: that of the file its manifest names for the key.
pub open spec fn bundle_answer(
    bundle: BundleRefView,
    key: Seq<char>,
    held: Option<Seq<char>>,
    world: World,
) -> ReplyView {
    match (world.manifest)(bundle.cid) {
        None => crate::reply::not_found_view(),
        Some(m) => match crate::bundle::target(m.files, bundle.spa || m.spa, key) {
            None => crate::reply::not_found_view(),
            Some((cid, content_type)) => if held == Some(cid) && !crate::reply::is_html(
                content_type,
            ) {
                crate::reply::not_modified_view(cid)
            } else {
                crate::serve::fetched_reply(
                    cid,
                    content_type,
                    crate::path::is_hashed_asset(crate::bundle::wanted(key)),
                    (world.blob)(cid),
                )
            },
        },
    }
}

/// The answer from the local site: the file asked for, else in a single-page site its shell or its
/// root page.
pub open spec fn dir_answer(key: Seq<char>, world: World) -> ReplyView {
    match ((world.file)(key), (world.file)(SHELL_PAGE@), (world.file)(INDEX_PAGE@)) {
        (Some((bytes, content_type)), _, _) => crate::reply::file_reply(
            bytes,
            crate::html::lossy_utf8(bytes),
            content_type,
            None,
            crate::path::is_hashed_asset(key),
        ),
        (None, Some((shell, _)), _) if world.spa => crate::reply::file_reply(
            shell,
            crate::html::lossy_utf8(shell),
            HTML_TYPE@,
            None,
            false,
        ),
        (None, None, Some((index, _))) if world.spa => crate::reply::file_reply(
            index,
            crate::html::lossy_utf8(index),
            HTML_TYPE@,
            None,
            false,
        ),
        _ => crate::reply::not_found_view(),
    }
}

/// A request is answered from the bundle of its host where it has one, and else from the local
/// site; a path without a storage key is refused before anything is asked of the world.
pub proof fn law_request_is_answered(
    path: Seq<char>,
    host_header: Option<Seq<char>>,
    match_header: Option<Seq<char>>,
    default_host: Seq<char>,
    world: World,
)
    ensures
        outcome(
            crate::serve::first_step(path, host_header, match_header, default_host),
            world,
        ) == ({
            let host = crate::request::request_host(host_header, default_host);
            match crate::path::storage_key(path) {
                None => crate::reply::bad_path_view(),
                Some(key) => match (world.bundle)(host) {
                    Some(bundle) if host.len() > 0 => bundle_answer(
                        bundle,
                        key,
                        crate::request::held_content(match_header),
                        world,
                    ),
                    _ => dir_answer(key, world),
                },
            }
        }),
{
    reveal_with_fuel(outcome, 6);
}

/// Serving ends: every step but the last brings the answer nearer.
pub proof fn law_serving_ends(next: NextView, world: World)
    ensures
        next is Answer || steps_left(step(next, world)) < steps_left(next),
{
}

/// The tag of an answer stands for its content: sent back while the bundle is unchanged, it is
/// answered by a 304, for every content id that neither begins nor ends with a double quote.
pub proof fn law_tag_revalidates(
    bundle: BundleRefView,
    manifest: Option<ManifestView>,
    key: Seq<char>,
    held: Option<Seq<char>>,
    cid: Seq<char>,
    content_type: Seq<char>,
    immutable: bool,
    bytes: Seq<u8>,
    tag: Seq<char>,
)
    requires
        crate::serve::bundle_step(bundle, manifest, key, held) == (NextView::Blob {
            cid,
            content_type,
            immutable,
        }),
        crate::serve::fetched_reply(cid, content_type, immutable, Some(bytes)).etag == Some(tag),
        cid.len() > 0 ==> cid[0] != '"' && cid.last() != '"',
    ensures
        crate::serve::bundle_step(bundle, manifest, key, crate::request::held_content(Some(tag)))
            == NextView::Answer(crate::reply::not_modified_view(cid)),
        crate::reply::not_modified_view(cid).etag == Some(tag),
{
    crate::request::law_tag_round_trip(cid);
}

/// A client is told that it holds the content only where it does: the content id it sent is the
/// one that the manifest names now, and the file is not a page.
pub proof fn law_not_modified_is_true(
    bundle: BundleRefView,
    m: ManifestView,
    key: Seq<char>,
    held: Option<Seq<char>>,
    cid: Seq<char>,
)
    requires
        crate::serve::bundle_step(bundle, Some(m), key, held) == NextView::Answer(
            crate::reply::not_modified_view(cid),
        ),
    ensures
        crate::bundle::target(m.files, bundle.spa || m.spa, key) matches Some((now, content_type))
            && now == cid && held == Some(now) && !crate::reply::is_html(content_type),
{
    let t = crate::bundle::target(m.files, bundle.spa || m.spa, key);
    if let Some((now, content_type)) = t {
        if held == Some(now) && !crate::reply::is_html(content_type) {
            let a = crate::reply::not_modified_view(now);
            let b = crate::reply::not_modified_view(cid);
            assert(a.etag == b.etag);
            assert(crate::text::quoted(now) == crate::text::quoted(cid));
            assert(crate::text::quoted(now).subrange(1, 1 + now.len() as int) =~= now);
            assert(crate::text::quoted(cid).subrange(1, 1 + cid.len() as int) =~= cid);
            assert(crate::text::quoted(now).len() == now.len() + 2);
            assert(crate::text::quoted(cid).len() == cid.len() + 2);
        }
    }
}

/// How a file may be cached follows from what it is. A page is asked about each time and carries
/// no tag; a file whose name carries a hash is kept for good; any other file is asked about each
/// time.
pub proof fn law_caching(
    bytes: Seq<u8>,
    page: Seq<u8>,
    content_type: Seq<char>,
    cid: Option<Seq<char>>,
    immutable: bool,
)
    ensures
        ({
            let reply = crate::reply::file_reply(bytes, page, content_type, cid, immutable);
            &&& reply.status == 200
            &&& reply.content_type == Some(content_type)
            &&& crate::reply::is_html(content_type) ==> reply.cache_control == Some(PAGE_CACHING@)
                && reply.etag is None
            &&& !crate::reply::is_html(content_type) ==> reply.body == bytes && (reply.etag is Some
                <==> cid is Some)
            &&& reply.cache_control == Some(HASHED_CACHING@) <==> immutable
                && !crate::reply::is_html(content_type)
            &&& reply.cache_control == Some(STABLE_CACHING@) <==> !immutable
                && !crate::reply::is_html(content_type)
        }),
{
    reveal_strlit("no-cache, must-revalidate");
    reveal_strlit("no-cache");
    reveal_strlit("public, max-age=31536000, immutable");
    assert(PAGE_CACHING@.len() != HASHED_CACHING@.len());
    assert(PAGE_CACHING@.len() != STABLE_CACHING@.len());
    assert(STABLE_CACHING@.len() != HASHED_CACHING@.len());
}

/// A page has the bridge element in its bytes, and is asked about each time.
pub open spec fn page_is_bridged(reply: ReplyView) -> bool {
    reply.status == 200 && (reply.content_type matches Some(ct) && crate::reply::is_html(ct)) ==> {
        &&& crate::html::occurs(reply.body, crate::html::tag())
        &&& reply.cache_control == Some(PAGE_CACHING@)
    }
}

/// Every page goes out with the bridge, whatever bytes it is made of.
pub proof fn law_every_page_is_bridged(
    bytes: Seq<u8>,
    page: Seq<u8>,
    content_type: Seq<char>,
    cid: Option<Seq<char>>,
    immutable: bool,
)
    ensures
        page_is_bridged(crate::reply::file_reply(bytes, page, content_type, cid, immutable)),
{
    crate::html::law_bridged_has_element(bytes, page);
}

/// Every page that a request is answered with has the bridge, be it a file of a bundle, a file of
/// the local site or the shell of a single-page app.
pub proof fn law_every_answered_page_is_bridged(
    path: Seq<char>,
    host_header: Option<Seq<char>>,
    match_header: Option<Seq<char>>,
    default_host: Seq<char>,
    world: World,
)
    ensures
        page_is_bridged(
            outcome(
                crate::serve::first_step(path, host_header, match_header, default_host),
                world,
            ),
        ),
{
    law_request_is_answered(path, host_header, match_header, default_host, world);
    assert forall|
        bytes: Seq<u8>,
        page: Seq<u8>,
        content_type: Seq<char>,
        cid: Option<Seq<char>>,
        immutable: bool,
    |
        page_is_bridged(
            #[trigger] crate::reply::file_reply(bytes, page, content_type, cid, immutable),
        ) by {
        law_every_page_is_bridged(bytes, page, content_type, cid, immutable);
    }
}

/// A file of a bundle is served at its own path, under its own media type.
pub proof fn law_file_is_served_at_its_path(
    files: Map<Seq<char>, Seq<char>>,
    spa: bool,
    key: Seq<char>,
)
    requires
        crate::path::safe_key(key),
        key.len() > 0,
        files.dom().contains(key),
    ensures
        crate::path::storage_key(seq!['/'] + key) == Some(key),
        crate::bundle::target(files, spa, key) == Some(
            (files[key], crate::path::media_type(key)),
        ),
{
    crate::path::law_key_is_reachable(key);
}

/// Whatever answers a key is a file of the bundle, and what stands in for a missing file is a page.
pub proof fn law_target_is_in_bundle(
    files: Map<Seq<char>, Seq<char>>,
    spa: bool,
    key: Seq<char>,
    cid: Seq<char>,
    content_type: Seq<char>,
)
    requires
        crate::bundle::target(files, spa, key) == Some((cid, content_type)),
    ensures
        exists|name: Seq<char>| #[trigger] files.dom().contains(name) && files[name] == cid,
        !files.dom().contains(crate::bundle::wanted(key)) ==> crate::reply::is_html(content_type),
{
    reveal_strlit("text/html");
    reveal_strlit("text/html; charset=utf-8");
    assert(HTML_TYPE@.subrange(0, crate::reply::HTML_PREFIX@.len() as int)
        =~= crate::reply::HTML_PREFIX@);
}

/// A single-page bundle that has a shell or a root page answers every key.
pub proof fn law_single_page_answers_every_key(
    files: Map<Seq<char>, Seq<char>>,
    key: Seq<char>,
)
    requires
        files.dom().contains(SHELL_PAGE@) || files.dom().contains(INDEX_PAGE@),
    ensures
        crate::bundle::target(files, true, key) is Some,
{
}

/// What was published is what is served. Where the host of a plan has a bundle, a request at that
/// host for the path of a file is answered by the file's bytes, as the blob store gives them for
/// the content id in the manifest. The host has to be a bare one.
pub proof fn law_published_file_is_served(
    args: Seq<Seq<char>>,
    plan: crate::publish::PlanView,
    name: Seq<char>,
    key: Seq<char>,
    bundle: BundleRefView,
    m: ManifestView,
    bytes: Seq<u8>,
    default_host: Seq<char>,
    world: World,
)
    requires
        crate::publish::plan_of(args) == Some(plan),
        crate::text::lower(name) == plan.host,
        crate::request::is_bare_host(name),
        crate::path::safe_key(key),
        key.len() > 0,
        (world.bundle)(plan.host) == Some(bundle),
        (world.manifest)(bundle.cid) == Some(m),
        m.files.dom().contains(key),
        (world.blob)(m.files[key]) == Some(bytes),
    ensures
        outcome(
            crate::serve::first_step(seq!['/'] + key, Some(name), None, default_host),
            world,
        ) == crate::reply::file_reply(
            bytes,
            crate::html::lossy_utf8(bytes),
            crate::path::media_type(key),
            Some(m.files[key]),
            crate::path::is_hashed_asset(key),
        ),
{
    crate::publish::law_published_host_is_found(args, plan, name, Seq::empty(), default_host);
    law_file_is_served_at_its_path(m.files, bundle.spa || m.spa, key);
    law_request_is_answered(seq!['/'] + key, Some(name), None, default_host, world);
}

/// The root of a host is answered by its bundle's root page, with the bridge in it.
pub proof fn law_root_page_is_served(
    host_header: Option<Seq<char>>,
    match_header: Option<Seq<char>>,
    default_host: Seq<char>,
    bundle: BundleRefView,
    m: ManifestView,
    bytes: Seq<u8>,
    world: World,
)
    requires
        crate::request::request_host(host_header, default_host).len() > 0,
        (world.bundle)(crate::request::request_host(host_header, default_host)) == Some(bundle),
        (world.manifest)(bundle.cid) == Some(m),
        m.files.dom().contains(INDEX_PAGE@),
        (world.blob)(m.files[INDEX_PAGE@]) == Some(bytes),
    ensures
        outcome(
            crate::serve::first_step(seq!['/'], host_header, match_header, default_host),
            world,
        ) == (ReplyView {
            status: 200,
            content_type: Some(HTML_TYPE@),
            cache_control: Some(PAGE_CACHING@),
            etag: None,
            body: crate::html::bridged(bytes, crate::html::lossy_utf8(bytes)),
        }),
{
    let none = Seq::<char>::empty();
    assert(seq!['/'] + none =~= seq!['/']);
    crate::path::law_key_is_reachable(none);
    law_request_is_answered(seq!['/'], host_header, match_header, default_host, world);
    assert(crate::path::media_type(INDEX_PAGE@) == HTML_TYPE@) by {
        let page = INDEX_PAGE@;
        reveal_strlit("index.html");
        reveal_strlit("html");
        page.index_of_last_ensures('.');
        assert(page[5] == '.');
        assert(page.index_of_last('.') == Some(5int));
        assert(crate::text::lower(page.skip(6)) =~= "html"@);
    }
    assert(crate::reply::is_html(HTML_TYPE@)) by {
        reveal_strlit("text/html");
        reveal_strlit("text/html; charset=utf-8");
        assert(HTML_TYPE@.subrange(0, crate::reply::HTML_PREFIX@.len() as int)
            =~= crate::reply::HTML_PREFIX@);
    }
}

} // verus!
