//! Bundles: where a host's content is, what a bundle holds, and which file answers a key.
use vstd::prelude::*;
use crate::path::{mime_for, HTML_TYPE};
use crate::table::FileTable;
use crate::text::joined;

verus! {

broadcast use vstd::string::group_string_axioms;

/// A host's bundle: the app it belongs to and the content id of the bundle's manifest.
pub struct BundleRef {
    pub app_id: String,
    pub cid: String,
    pub spa: bool,
}

/// A bundle reference, as the text that it holds.
pub struct BundleRefView {
    pub app_id: Seq<char>,
    pub cid: Seq<char>,
    pub spa: bool,
}

impl View for BundleRef {
    type V = BundleRefView;

    open spec fn view(&self) -> BundleRefView {
        BundleRefView { app_id: self.app_id@, cid: self.cid@, spa: self.spa }
    }
}

impl Clone for BundleRef {
    fn clone(&self) -> (r: BundleRef)
        ensures
            r@ == self@,
    {
        BundleRef { app_id: self.app_id.clone(), cid: self.cid.clone(), spa: self.spa }
    }
}

/// A bundle's manifest: whether it is a single-page app, and its files.
pub struct Manifest {
    pub spa: bool,
    pub files: FileTable,
}

/// A manifest, as the mapping that it holds.
pub struct ManifestView {
    pub spa: bool,
    pub files: Map<Seq<char>, Seq<char>>,
}

impl View for Manifest {
    type V = ManifestView;

    open spec fn view(&self) -> ManifestView {
        ManifestView { spa: self.spa, files: self.files@ }
    }
}

impl Clone for Manifest {
    fn clone(&self) -> (r: Manifest)
        ensures
            r@ == self@,
    {
        Manifest { spa: self.spa, files: self.files.clone() }
    }
}

/// The page of an app's root, and of a directory.
pub const INDEX_PAGE: &'static str = "index.html";

/// The page that a single-page app answers unknown routes with.
pub const SHELL_PAGE: &'static str = "200.html";

/// The file that a key asks for: the empty key asks for the root page.
pub open spec fn wanted(key: Seq<char>) -> Seq<char> {
    if key.len() == 0 {
        INDEX_PAGE@
    } else {
        key
    }
}

/// The file that answers a key: its content id and its media type.
pub struct Target {
    pub cid: String,
    pub content_type: String,
}

/// Which of a bundle's files answers a key, as content id and media type. The file of that name
/// comes first, then the prerendered pages `<key>.html` and `<key>/index.html`; a single-page app
/// answers any other key with its shell, `200.html` or else `index.html`.
pub open spec fn target(files: Map<Seq<char>, Seq<char>>, spa: bool, key: Seq<char>) -> Option<
    (Seq<char>, Seq<char>),
> {
    let want = wanted(key);
    let page = want + ".html"@;
    let index = want + "/index.html"@;
    if files.dom().contains(want) {
        Some((files[want], crate::path::media_type(want)))
    } else if files.dom().contains(page) {
        Some((files[page], HTML_TYPE@))
    } else if files.dom().contains(index) {
        Some((files[index], HTML_TYPE@))
    } else if spa && files.dom().contains(SHELL_PAGE@) {
        Some((files[SHELL_PAGE@], HTML_TYPE@))
    } else if spa && files.dom().contains(INDEX_PAGE@) {
        Some((files[INDEX_PAGE@], HTML_TYPE@))
    } else {
        None
    }
}

/// A target, as the texts that it holds.
pub open spec fn target_texts(t: Option<Target>) -> Option<(Seq<char>, Seq<char>)> {
    match t {
        Some(t) => Some((t.cid@, t.content_type@)),
        None => None,
    }
}

fn page_of(files: &FileTable, name: &str) -> (r: Option<Target>)
    ensures
        target_texts(r) == (if files@.dom().contains(name@) {
            Some((files@[name@], HTML_TYPE@))
        } else {
            None
        }),
{
    match files.get(name) {
        Some(cid) => Some(Target { cid: cid.clone(), content_type: HTML_TYPE.to_owned() }),
        None => None,
    }
}

/// The file that a key asks for.
pub fn wanted_file(key: &str) -> (r: String)
    ensures
        r@ == wanted(key@),
{
    if key.is_empty() {
        INDEX_PAGE.to_owned()
    } else {
        key.to_owned()
    }
}

/// Which of a bundle's files answers a key; `spa` says whether the bundle is a single-page app.
pub fn find_target(files: &FileTable, spa: bool, key: &str) -> (r: Option<Target>)
    ensures
        target_texts(r) == target(files@, spa, key@),
{
    let want = wanted_file(key);
    if let Some(cid) = files.get(want.as_str()) {
        return Some(
            Target { cid: cid.clone(), content_type: mime_for(want.as_str()).to_owned() },
        );
    }
    let page = page_of(files, joined(want.as_str(), ".html").as_str());
    if page.is_some() {
        return page;
    }
    let index = page_of(files, joined(want.as_str(), "/index.html").as_str());
    if index.is_some() {
        return index;
    }
    if !spa {
        return None;
    }
    let shell = page_of(files, SHELL_PAGE);
    if shell.is_some() {
        return shell;
    }
    page_of(files, INDEX_PAGE)
}

} // verus!
