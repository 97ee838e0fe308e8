//! Serving a request, one decision at a time. Each decision names the work to be done outside
//! (ask the mesh, read a file) and is resumed with what came of it.
use vstd::prelude::*;
use crate::bundle::{
    find_target, wanted_file, BundleRef, BundleRefView, Manifest, ManifestView, Target, INDEX_PAGE,
    SHELL_PAGE,
};
use crate::path::{is_immutable_asset, mime_for, norm_path, HTML_TYPE};
use crate::reply::{bad_path, html_type, not_found, not_modified, respond_file, Reply, ReplyView};
use crate::request::{held_tag, req_host};
use crate::text::same_text;

verus! {

broadcast use vstd::string::group_string_axioms;

/// What a request needs next.
pub enum Next {
    /// Nothing: this is its answer.
    Answer(Reply),
    /// The bundle of a host.
    Resolve(Lookup),
    /// The manifest of a bundle.
    Manifest(OpenBundle),
    /// The bytes of a file in a bundle.
    Blob(SendFile),
    /// A file of the local site.
    Load(ReadFile),
}

/// A request whose host is being looked up.
pub struct Lookup {
    pub host: String,
    pub key: String,
    pub held: Option<String>,
}

/// A request whose bundle is known, and whose manifest is being read.
pub struct OpenBundle {
    pub bundle: BundleRef,
    pub key: String,
    pub held: Option<String>,
}

/// A request whose file is known, and whose bytes are being fetched.
pub struct SendFile {
    pub target: Target,
    pub immutable: bool,
}

/// Which file of the local site is being read.
#[derive(Clone, Copy)]
pub enum Attempt {
    /// The one asked for.
    Own,
    /// The shell of a single-page app.
    Shell,
    /// The root page, where there is no shell.
    Index,
}

/// A request that is being served from the local site.
pub struct ReadFile {
    pub key: String,
    pub attempt: Attempt,
}

/// A file of the local site.
pub struct LocalFile {
    pub bytes: Vec<u8>,
    pub content_type: String,
}

/// What a request needs next, as the texts that it holds.
pub enum NextView {
    Answer(ReplyView),
    Resolve { host: Seq<char>, key: Seq<char>, held: Option<Seq<char>> },
    Manifest { bundle: BundleRefView, key: Seq<char>, held: Option<Seq<char>> },
    Blob { cid: Seq<char>, content_type: Seq<char>, immutable: bool },
    Load { key: Seq<char>, attempt: Attempt },
}

impl View for Lookup {
    type V = NextView;

    open spec fn view(&self) -> NextView {
        NextView::Resolve {
            host: self.host@,
            key: self.key@,
            held: crate::text::text(self.held),
        }
    }
}

impl View for OpenBundle {
    type V = NextView;

    open spec fn view(&self) -> NextView {
        NextView::Manifest {
            bundle: self.bundle@,
            key: self.key@,
            held: crate::text::text(self.held),
        }
    }
}

impl View for SendFile {
    type V = NextView;

    open spec fn view(&self) -> NextView {
        NextView::Blob {
            cid: self.target.cid@,
            content_type: self.target.content_type@,
            immutable: self.immutable,
        }
    }
}

impl View for ReadFile {
    type V = NextView;

    open spec fn view(&self) -> NextView {
        NextView::Load { key: self.key@, attempt: self.attempt }
    }
}

impl View for Next {
    type V = NextView;

    open spec fn view(&self) -> NextView {
        match *self {
            Next::Answer(reply) => NextView::Answer(reply@),
            Next::Resolve(lookup) => lookup@,
            Next::Manifest(open) => open@,
            Next::Blob(send) => send@,
            Next::Load(read) => read@,
        }
    }
}

/// What a request needs first. A path without a storage key is refused; a request that names no
/// host, where there is no default one, goes to the local site; any other to the bundle of its
/// host.
pub open spec fn first_step(
    path: Seq<char>,
    host_header: Option<Seq<char>>,
    match_header: Option<Seq<char>>,
    default_host: Seq<char>,
) -> NextView {
    let host = crate::request::request_host(host_header, default_host);
    match crate::path::storage_key(path) {
        None => NextView::Answer(crate::reply::bad_path_view()),
        Some(key) => if host.len() > 0 {
            NextView::Resolve { host, key, held: crate::request::held_content(match_header) }
        } else {
            NextView::Load { key, attempt: Attempt::Own }
        },
    }
}

/// Takes a request apart: its path, its `Host` and its `If-None-Match` header.
pub fn serve_content(
    path: &str,
    host_header: Option<&str>,
    match_header: Option<&str>,
    default_host: &str,
) -> (r: Next)
    ensures
        r@ == first_step(
            path@,
            crate::text::text_ref(host_header),
            crate::text::text_ref(match_header),
            default_host@,
        ),
{
    let key = match norm_path(path) {
        Some(key) => key,
        None => {
            return Next::Answer(bad_path());
        },
    };
    let held = held_tag(match_header);
    let host = req_host(host_header, default_host);
    if !host.as_str().is_empty() {
        return Next::Resolve(Lookup { host, key, held });
    }
    serve_from_dir(key.as_str())
}

/// What a request needs once its host was looked up: the manifest of the bundle, or the file of the
/// local site where there is none.
pub open spec fn resolved_step(
    key: Seq<char>,
    held: Option<Seq<char>>,
    found: Option<BundleRefView>,
) -> NextView {
    match found {
        Some(bundle) => NextView::Manifest { bundle, key, held },
        None => NextView::Load { key, attempt: Attempt::Own },
    }
}

impl Lookup {
    /// Goes on with the bundle of the host, or from the local site where there is none.
    pub fn resolved(self, found: Option<BundleRef>) -> (r: Next)
        ensures
            r@ == match found {
                Some(b) => NextView::Manifest {
                    bundle: b@,
                    key: self.key@,
                    held: crate::text::text(self.held),
                },
                None => NextView::Load { key: self.key@, attempt: Attempt::Own },
            },
            r@ == resolved_step(
                self.key@,
                crate::text::text(self.held),
                crate::resolve::bundle_texts(found),
            ),
    {
        match found {
            Some(bundle) => Next::Manifest(OpenBundle { bundle, key: self.key, held: self.held }),
            None => serve_from_dir(self.key.as_str()),
        }
    }
}

/// What a request for a file of a bundle needs. Nothing answers a key that has no target; a client
/// that holds the target's content is told so, unless that is a page; else the content is fetched.
pub open spec fn bundle_step(
    bundle: BundleRefView,
    manifest: Option<ManifestView>,
    key: Seq<char>,
    held: Option<Seq<char>>,
) -> NextView {
    match manifest {
        None => NextView::Answer(crate::reply::not_found_view()),
        Some(m) => match crate::bundle::target(m.files, bundle.spa || m.spa, key) {
            None => NextView::Answer(crate::reply::not_found_view()),
            Some((cid, content_type)) => if held == Some(cid) && !crate::reply::is_html(
                content_type,
            ) {
                NextView::Answer(crate::reply::not_modified_view(cid))
            } else {
                NextView::Blob {
                    cid,
                    content_type,
                    immutable: crate::path::is_hashed_asset(crate::bundle::wanted(key)),
                }
            },
        },
    }
}

/// A manifest that could be read or not, as what it holds.
pub open spec fn manifest_texts(m: Option<&Manifest>) -> Option<ManifestView> {
    match m {
        Some(m) => Some(m@),
        None => None,
    }
}

/// Serves one key from a bundle: looks up its file in the manifest and decides whether the client
/// holds the content already. The content id of a file is its strong validator.
pub fn serve_from_bundle(
    bundle: &BundleRef,
    manifest: Option<&Manifest>,
    key: &str,
    held: Option<&str>,
) -> (r: Next)
    ensures
        r@ == bundle_step(bundle@, manifest_texts(manifest), key@, crate::text::text_ref(held)),
{
    let m = match manifest {
        Some(m) => m,
        None => {
            return Next::Answer(not_found());
        },
    };
    let target = match find_target(&m.files, bundle.spa || m.spa, key) {
        Some(target) => target,
        None => {
            return Next::Answer(not_found());
        },
    };
    if let Some(h) = held {
        if same_text(h, target.cid.as_str()) && !html_type(target.content_type.as_str()) {
            return Next::Answer(not_modified(target.cid.as_str()));
        }
    }
    let want = wanted_file(key);
    Next::Blob(SendFile { target, immutable: is_immutable_asset(want.as_str()) })
}

impl OpenBundle {
    /// Goes on with the manifest of the bundle.
    pub fn opened(&self, manifest: Option<&Manifest>) -> (r: Next)
        ensures
            r@ == bundle_step(
                self.bundle@,
                manifest_texts(manifest),
                self.key@,
                crate::text::text(self.held),
            ),
    {
        let held = match &self.held {
            Some(h) => Some(h.as_str()),
            None => None,
        };
        serve_from_bundle(&self.bundle, manifest, self.key.as_str(), held)
    }
}

/// The answer that carries a fetched file; nothing answers where it could not be had.
pub open spec fn fetched_reply(
    cid: Seq<char>,
    content_type: Seq<char>,
    immutable: bool,
    bytes: Option<Seq<u8>>,
) -> ReplyView {
    match bytes {
        Some(b) => crate::reply::file_reply(
            b,
            crate::html::lossy_utf8(b),
            content_type,
            Some(cid),
            immutable,
        ),
        None => crate::reply::not_found_view(),
    }
}

/// Bytes that could be had or not, as the sequence that they are.
pub open spec fn bytes_of(b: Option<Vec<u8>>) -> Option<Seq<u8>> {
    match b {
        Some(b) => Some(b@),
        None => None,
    }
}

impl SendFile {
    /// Answers with the bytes of the file.
    pub fn fetched(self, blob: Option<Vec<u8>>) -> (r: Reply)
        ensures
            r@ == fetched_reply(
                self.target.cid@,
                self.target.content_type@,
                self.immutable,
                bytes_of(blob),
            ),
            blob matches Some(b) ==> vstd::utf8::valid_utf8(b@) ==> r@
                == crate::reply::file_reply(
                b@,
                b@,
                self.target.content_type@,
                Some(self.target.cid@),
                self.immutable,
            ),
    {
        match blob {
            Some(bytes) => respond_file(
                bytes,
                self.target.content_type,
                Some(self.target.cid.as_str()),
                self.immutable,
            ),
            None => not_found(),
        }
    }
}

/// Serves one key from the local site: its file is read first.
pub fn serve_from_dir(key: &str) -> (r: Next)
    ensures
        r@ == (NextView::Load { key: key@, attempt: Attempt::Own }),
{
    Next::Load(ReadFile { key: key.to_owned(), attempt: Attempt::Own })
}

/// What a request for a file of the local site needs once a file was read or was not there. In a
/// single-page site the shell, and then the root page, stands in for a missing file.
pub open spec fn dir_step(
    key: Seq<char>,
    attempt: Attempt,
    file: Option<(Seq<u8>, Seq<char>)>,
    spa: bool,
) -> NextView {
    match (file, attempt) {
        (Some((bytes, content_type)), Attempt::Own) => NextView::Answer(
            crate::reply::file_reply(
                bytes,
                crate::html::lossy_utf8(bytes),
                content_type,
                None,
                crate::path::is_hashed_asset(key),
            ),
        ),
        (Some((bytes, _)), _) => NextView::Answer(
            crate::reply::file_reply(
                bytes,
                crate::html::lossy_utf8(bytes),
                HTML_TYPE@,
                None,
                false,
            ),
        ),
        (None, Attempt::Own) if spa => NextView::Load { key: SHELL_PAGE@, attempt: Attempt::Shell },
        (None, Attempt::Shell) if spa => NextView::Load {
            key: INDEX_PAGE@,
            attempt: Attempt::Index,
        },
        _ => NextView::Answer(crate::reply::not_found_view()),
    }
}

/// A local file that was there or not, as what it holds.
pub open spec fn file_texts(f: Option<LocalFile>) -> Option<(Seq<u8>, Seq<char>)> {
    match f {
        Some(f) => Some((f.bytes@, f.content_type@)),
        None => None,
    }
}

impl ReadFile {
    /// Goes on with the file that was read, or without it. `spa` says whether the local site is a
    /// single-page one.
    pub fn loaded(self, file: Option<LocalFile>, spa: bool) -> (r: Next)
        ensures
            r@ == dir_step(self.key@, self.attempt, file_texts(file), spa),
            file matches Some(f) ==> vstd::utf8::valid_utf8(f.bytes@) ==> r@ == NextView::Answer(
                if self.attempt is Own {
                    crate::reply::file_reply(
                        f.bytes@,
                        f.bytes@,
                        f.content_type@,
                        None,
                        crate::path::is_hashed_asset(self.key@),
                    )
                } else {
                    crate::reply::file_reply(f.bytes@, f.bytes@, HTML_TYPE@, None, false)
                },
            ),
    {
        match file {
            Some(f) => match self.attempt {
                Attempt::Own => {
                    let immutable = is_immutable_asset(self.key.as_str());
                    Next::Answer(respond_file(f.bytes, f.content_type, None, immutable))
                },
                _ => Next::Answer(respond_file(f.bytes, HTML_TYPE.to_owned(), None, false)),
            },
            None => match self.attempt {
                Attempt::Own if spa => Next::Load(
                    ReadFile { key: SHELL_PAGE.to_owned(), attempt: Attempt::Shell },
                ),
                Attempt::Shell if spa => Next::Load(
                    ReadFile { key: INDEX_PAGE.to_owned(), attempt: Attempt::Index },
                ),
                _ => Next::Answer(not_found()),
            },
        }
    }
}

/// The file below the site's root that a key is read from: `index.html` for the root and for a
/// directory, else the key itself.
pub open spec fn local_file(key: Seq<char>, is_dir: bool) -> Seq<char> {
    if key.len() == 0 {
        INDEX_PAGE@
    } else if is_dir {
        key + "/index.html"@
    } else {
        key
    }
}

/// The file below the site's root that a key is read from, given whether the key names a directory.
pub fn load_file(key: &str, is_dir: bool) -> (r: String)
    ensures
        r@ == local_file(key@, is_dir),
{
    if key.is_empty() {
        INDEX_PAGE.to_owned()
    } else if is_dir {
        crate::text::joined(key, "/index.html")
    } else {
        key.to_owned()
    }
}

/// A file of the local site, from the path that it was read from and what was read: its media type
/// is that of the whole path.
pub fn local_file_read(path: &str, bytes: Vec<u8>) -> (r: LocalFile)
    ensures
        r.bytes@ == bytes@,
        r.content_type@ == crate::path::media_type(path@),
{
    LocalFile { bytes, content_type: mime_for(path).to_owned() }
}

} // verus!
