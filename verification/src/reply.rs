//! What the edge answers, as plain values: a status, the headers it sets, and a body.
use vstd::prelude::*;
use crate::html::inject_bridge;
use crate::text::{begins_with, quote};

verus! {

broadcast use vstd::string::group_string_axioms;

/// An answer to a request.
pub struct Reply {
    pub status: u16,
    pub content_type: Option<String>,
    pub cache_control: Option<String>,
    pub etag: Option<String>,
    pub body: Vec<u8>,
}

/// An answer, as the text and the bytes that it holds.
pub struct ReplyView {
    pub status: u16,
    pub content_type: Option<Seq<char>>,
    pub cache_control: Option<Seq<char>>,
    pub etag: Option<Seq<char>>,
    pub body: Seq<u8>,
}

impl View for Reply {
    type V = ReplyView;

    open spec fn view(&self) -> ReplyView {
        ReplyView {
            status: self.status,
            content_type: crate::text::text(self.content_type),
            cache_control: crate::text::text(self.cache_control),
            etag: crate::text::text(self.etag),
            body: self.body@,
        }
    }
}

/// The media type of a one-line message.
pub const MESSAGE_TYPE: &'static str = "text/plain; charset=utf-8";

/// An HTML page points at the live bundle: it is never served from a cache unasked.
pub const PAGE_CACHING: &'static str = "no-cache, must-revalidate";

/// A file with a stable name: kept, but asked about each time.
pub const STABLE_CACHING: &'static str = "no-cache";

/// A file whose name carries the hash of its content: kept for a year, never asked about.
pub const HASHED_CACHING: &'static str = "public, max-age=31536000, immutable";

/// The start of every HTML media type.
pub const HTML_PREFIX: &'static str = "text/html";

/// A status with a one-line message.
pub open spec fn message(status: u16, line: Seq<char>) -> ReplyView {
    ReplyView {
        status,
        content_type: Some(MESSAGE_TYPE@),
        cache_control: None,
        etag: None,
        body: vstd::utf8::encode_utf8(line),
    }
}

/// The answer to a path that has no storage key.
pub open spec fn bad_path_view() -> ReplyView {
    message(400, "bad path"@)
}

/// The answer where there is nothing to serve.
pub open spec fn not_found_view() -> ReplyView {
    message(404, "not found"@)
}

/// The answer to a client that holds the content `cid` already.
pub open spec fn not_modified_view(cid: Seq<char>) -> ReplyView {
    ReplyView {
        status: 304,
        content_type: None,
        cache_control: None,
        etag: Some(crate::text::quoted(cid)),
        body: Seq::empty(),
    }
}

/// Whether a media type is that of an HTML page.
pub open spec fn is_html(content_type: Seq<char>) -> bool {
    HTML_PREFIX@.is_prefix_of(content_type)
}

/// The answer that carries a file: its `bytes`, its media type, the content id `cid` where the
/// file has one, and whether its name carries a hash. An HTML page, whose text is `page`, goes out
/// with the bridge in it and is not tagged; any other file goes out as it is, tagged by its id.
pub open spec fn file_reply(
    bytes: Seq<u8>,
    page: Seq<u8>,
    content_type: Seq<char>,
    cid: Option<Seq<char>>,
    immutable: bool,
) -> ReplyView {
    if is_html(content_type) {
        ReplyView {
            status: 200,
            content_type: Some(content_type),
            cache_control: Some(PAGE_CACHING@),
            etag: None,
            body: crate::html::bridged(bytes, page),
        }
    } else {
        ReplyView {
            status: 200,
            content_type: Some(content_type),
            cache_control: Some(
                if immutable {
                    HASHED_CACHING@
                } else {
                    STABLE_CACHING@
                },
            ),
            etag: match cid {
                Some(id) => Some(crate::text::quoted(id)),
                None => None,
            },
            body: bytes,
        }
    }
}

fn message_reply(status: u16, line: &str) -> (r: Reply)
    ensures
        r@ == message(status, line@),
{
    Reply {
        status,
        content_type: Some(MESSAGE_TYPE.to_owned()),
        cache_control: None,
        etag: None,
        body: vstd::slice::slice_to_vec(line.as_bytes()),
    }
}

/// The answer to a path that has no storage key.
pub fn bad_path() -> (r: Reply)
    ensures
        r@ == bad_path_view(),
{
    message_reply(400, "bad path")
}

/// The answer where there is nothing to serve.
pub fn not_found() -> (r: Reply)
    ensures
        r@ == not_found_view(),
{
    message_reply(404, "not found")
}

/// The answer to a client that holds the content `cid` already.
pub fn not_modified(cid: &str) -> (r: Reply)
    ensures
        r@ == not_modified_view(cid@),
{
    let r = Reply {
        status: 304,
        content_type: None,
        cache_control: None,
        etag: Some(quote(cid)),
        body: Vec::new(),
    };
    assert(r@.body =~= Seq::<u8>::empty());
    r
}

/// Whether a media type is that of an HTML page.
pub fn html_type(content_type: &str) -> (r: bool)
    ensures
        r == is_html(content_type@),
{
    begins_with(content_type, HTML_PREFIX)
}

/// The answer that carries a file. Names in a bundle are stable while what they hold changes, so a
/// page is never cached and any other file is tagged with its content id and asked about each
/// time; only a file whose name carries its hash is kept for good.
pub fn respond_file(bytes: Vec<u8>, ct: String, etag: Option<&str>, immutable: bool) -> (r: Reply)
    ensures
        r@ == file_reply(
            bytes@,
            crate::html::lossy_utf8(bytes@),
            ct@,
            crate::text::text_ref(etag),
            immutable,
        ),
        vstd::utf8::valid_utf8(bytes@) ==> r@ == file_reply(
            bytes@,
            bytes@,
            ct@,
            crate::text::text_ref(etag),
            immutable,
        ),
{
    if html_type(ct.as_str()) {
        return Reply {
            status: 200,
            content_type: Some(ct),
            cache_control: Some(PAGE_CACHING.to_owned()),
            etag: None,
            body: inject_bridge(bytes.as_slice()),
        };
    }
    let caching = if immutable {
        HASHED_CACHING
    } else {
        STABLE_CACHING
    };
    Reply {
        status: 200,
        content_type: Some(ct),
        cache_control: Some(caching.to_owned()),
        etag: match etag {
            Some(id) => Some(quote(id)),
            None => None,
        },
        body: bytes,
    }
}

/// The media type of a script.
pub const SCRIPT_TYPE: &'static str = "text/javascript; charset=utf-8";

/// The answer that carries the bridge installer itself.
pub fn serve_bridge_js(script: &str) -> (r: Reply)
    ensures
        r@ == (ReplyView {
            status: 200,
            content_type: Some(SCRIPT_TYPE@),
            cache_control: None,
            etag: None,
            body: vstd::utf8::encode_utf8(script@),
        }),
{
    Reply {
        status: 200,
        content_type: Some(SCRIPT_TYPE.to_owned()),
        cache_control: None,
        etag: None,
        body: vstd::slice::slice_to_vec(script.as_bytes()),
    }
}

} // verus!
