//! Laws of serving: which file answers a key, and what each step of a request leads to.
use vstd::prelude::*;
use crate::bundle::{BundleRefView, ManifestView};
use crate::serve::{Attempt, NextView};

verus! {

broadcast use vstd::string::group_string_axioms;

/// A file of the bundle answers its own path, whatever else the bundle holds and whether or not it
/// is a single-page app.
pub proof fn law_own_file_answers(files: Map<Seq<char>, Seq<char>>, spa: bool, key: Seq<char>)
    requires
        key.len() > 0,
        files.dom().contains(key),
    ensures
        crate::bundle::target(files, spa, key) == Some(
            (files[key], crate::path::media_type(key)),
        ),
{
}

/// Where there is no file of that path, its prerendered page answers, whether or not the bundle is a
/// single-page app: `<key>.html`, or else `<key>/index.html`.
pub proof fn law_prerendered_page_answers(
    files: Map<Seq<char>, Seq<char>>,
    spa: bool,
    key: Seq<char>,
)
    requires
        key.len() > 0,
        !files.dom().contains(key),
    ensures
        files.dom().contains(key + ".html"@) ==> crate::bundle::target(files, spa, key) == Some(
            (files[key + ".html"@], "text/html; charset=utf-8"@),
        ),
        !files.dom().contains(key + ".html"@) && files.dom().contains(key + "/index.html"@)
            ==> crate::bundle::target(files, spa, key) == Some(
            (files[key + "/index.html"@], "text/html; charset=utf-8"@),
        ),
{
}

/// Where the bundle has none of these three, a single-page app answers with `200.html`, or else with
/// `index.html`; any other bundle, and one that has neither, does not answer.
pub proof fn law_shell_answers_last(
    files: Map<Seq<char>, Seq<char>>,
    key: Seq<char>,
)
    requires
        key.len() > 0,
        !files.dom().contains(key),
        !files.dom().contains(key + ".html"@),
        !files.dom().contains(key + "/index.html"@),
    ensures
        crate::bundle::target(files, false, key) is None,
        files.dom().contains("200.html"@) ==> crate::bundle::target(files, true, key) == Some(
            (files["200.html"@], "text/html; charset=utf-8"@),
        ),
        !files.dom().contains("200.html"@) && files.dom().contains("index.html"@)
            ==> crate::bundle::target(files, true, key) == Some(
            (files["index.html"@], "text/html; charset=utf-8"@),
        ),
        !files.dom().contains("200.html"@) && !files.dom().contains("index.html"@)
            ==> crate::bundle::target(files, true, key) is None,
{
}

/// The root of a bundle is its `index.html`, for the choice of the file and for all that follows.
pub proof fn law_root_is_the_index(
    files: Map<Seq<char>, Seq<char>>,
    spa: bool,
    bundle: BundleRefView,
    manifest: Option<ManifestView>,
    held: Option<Seq<char>>,
)
    ensures
        crate::bundle::target(files, spa, Seq::empty()) == crate::bundle::target(
            files,
            spa,
            "index.html"@,
        ),
        crate::serve::bundle_step(bundle, manifest, Seq::empty(), held)
            == crate::serve::bundle_step(bundle, manifest, "index.html"@, held),
{
    reveal_strlit("index.html");
}

/// The file that answers a key is fetched, under its own content id and media type, unless the
/// client holds that content and it is no page: then the client is told so. A bundle is a
/// single-page app if its reference or its manifest says so.
pub proof fn law_target_is_fetched_unless_held(
    bundle: BundleRefView,
    m: ManifestView,
    key: Seq<char>,
    held: Option<Seq<char>>,
    cid: Seq<char>,
    ct: Seq<char>,
)
    requires
        key.len() > 0,
        bundle.spa || m.spa ==> crate::bundle::target(m.files, true, key) == Some((cid, ct)),
        !bundle.spa && !m.spa ==> crate::bundle::target(m.files, false, key) == Some((cid, ct)),
    ensures
        held == Some(cid) && !crate::laws::answers::html_like(ct) ==> crate::serve::bundle_step(
            bundle,
            Some(m),
            key,
            held,
        ) == NextView::Answer(crate::reply::not_modified_view(cid)),
        held != Some(cid) || crate::laws::answers::html_like(ct) ==> crate::serve::bundle_step(
            bundle,
            Some(m),
            key,
            held,
        ) == (NextView::Blob {
            cid,
            content_type: ct,
            immutable: crate::path::is_hashed_asset(key),
        }),
{
}

/// A key that no file answers, or whose manifest cannot be had, is not found, whatever the client
/// holds; a file whose bytes cannot be had likewise.
pub proof fn law_nothing_is_not_found(
    bundle: BundleRefView,
    m: ManifestView,
    key: Seq<char>,
    held: Option<Seq<char>>,
    cid: Seq<char>,
    ct: Seq<char>,
    immutable: bool,
)
    requires
        bundle.spa || m.spa ==> crate::bundle::target(m.files, true, key) is None,
        !bundle.spa && !m.spa ==> crate::bundle::target(m.files, false, key) is None,
    ensures
        crate::serve::bundle_step(bundle, Some(m), key, held) == NextView::Answer(
            crate::reply::not_found_view(),
        ),
        crate::serve::bundle_step(bundle, None, key, held) == NextView::Answer(
            crate::reply::not_found_view(),
        ),
        crate::serve::fetched_reply(cid, ct, immutable, None) == crate::reply::not_found_view(),
{
}

/// A fetched file is answered with its bytes, its media type and its content id.
pub proof fn law_fetched_file_is_answered(
    cid: Seq<char>,
    ct: Seq<char>,
    immutable: bool,
    bytes: Seq<u8>,
)
    ensures
        crate::serve::fetched_reply(cid, ct, immutable, Some(bytes)) == crate::reply::file_reply(
            bytes,
            crate::html::lossy_utf8(bytes),
            ct,
            Some(cid),
            immutable,
        ),
{
}

/// A request is refused if its path has no key, whatever its headers. Else its key is looked for at
/// its host, with what the client holds, or at the local site where it has no host.
pub proof fn law_request_is_taken_apart(
    path: Seq<char>,
    host_header: Option<Seq<char>>,
    match_header: Option<Seq<char>>,
    default: Seq<char>,
    key: Seq<char>,
)
    ensures
        crate::path::storage_key(path) is None ==> crate::serve::first_step(
            path,
            host_header,
            match_header,
            default,
        ) == NextView::Answer(crate::reply::bad_path_view()),
        crate::path::storage_key(path) == Some(key) && crate::request::request_host(
            host_header,
            default,
        ).len() > 0 ==> crate::serve::first_step(path, host_header, match_header, default) == (
        NextView::Resolve {
            host: crate::request::request_host(host_header, default),
            key,
            held: crate::request::held_content(match_header),
        }),
        crate::path::storage_key(path) == Some(key) && crate::request::request_host(
            host_header,
            default,
        ).len() == 0 ==> crate::serve::first_step(path, host_header, match_header, default) == (
        NextView::Load { key, attempt: Attempt::Own }),
{
}

/// A host with a bundle is served from it and nowhere else; one without from the local site. The key
/// and what the client holds go along unchanged.
pub proof fn law_bundle_comes_before_site(
    key: Seq<char>,
    held: Option<Seq<char>>,
    bundle: BundleRefView,
)
    ensures
        crate::serve::resolved_step(key, held, Some(bundle)) == (NextView::Manifest {
            bundle,
            key,
            held,
        }),
        crate::serve::resolved_step(key, held, None) == (NextView::Load {
            key,
            attempt: Attempt::Own,
        }),
{
}

/// A file of the local site that is there is answered with its bytes, under its own media type and
/// without a tag, whether or not the site is a single-page one.
pub proof fn law_local_file_is_answered(
    key: Seq<char>,
    bytes: Seq<u8>,
    ct: Seq<char>,
    spa: bool,
)
    ensures
        crate::serve::dir_step(key, Attempt::Own, Some((bytes, ct)), spa) == NextView::Answer(
            crate::reply::file_reply(
                bytes,
                crate::html::lossy_utf8(bytes),
                ct,
                None,
                crate::path::is_hashed_asset(key),
            ),
        ),
{
}

/// A file that is not there is not found, unless the site is a single-page one: there `200.html` is
/// tried, then `index.html`, and what is found goes out as a page.
pub proof fn law_local_shell_stands_in(key: Seq<char>, bytes: Seq<u8>, ct: Seq<char>, spa: bool)
    ensures
        forall|attempt: Attempt| #[trigger]
            crate::serve::dir_step(key, attempt, None, false) == NextView::Answer(
                crate::reply::not_found_view(),
            ),
        crate::serve::dir_step(key, Attempt::Own, None, true) == (NextView::Load {
            key: "200.html"@,
            attempt: Attempt::Shell,
        }),
        crate::serve::dir_step(key, Attempt::Shell, None, true) == (NextView::Load {
            key: "index.html"@,
            attempt: Attempt::Index,
        }),
        crate::serve::dir_step(key, Attempt::Index, None, true) == NextView::Answer(
            crate::reply::not_found_view(),
        ),
        forall|attempt: Attempt|
            attempt is Shell || attempt is Index ==> #[trigger] crate::serve::dir_step(
                key,
                attempt,
                Some((bytes, ct)),
                spa,
            ) == NextView::Answer(
                crate::reply::file_reply(
                    bytes,
                    crate::html::lossy_utf8(bytes),
                    "text/html; charset=utf-8"@,
                    None,
                    false,
                ),
            ),
{
}

/// A key that names no directory is read from the file of that very path, directories included; so
/// two such keys are never read from the same file. A directory is read from its `index.html`, and
/// the root from that of the site.
pub proof fn law_key_is_its_file(key: Seq<char>, other: Seq<char>, is_dir: bool)
    requires
        key.len() > 0,
        other.len() > 0,
    ensures
        crate::serve::local_file(key, false) == key,
        crate::serve::local_file(key, true) == key + "/index.html"@,
        crate::serve::local_file(Seq::empty(), is_dir) == "index.html"@,
        key != other ==> crate::serve::local_file(key, false) != crate::serve::local_file(
            other,
            false,
        ),
{
}

} // verus!
