//! Laws of the answers: status, headers and body.
use vstd::prelude::*;
use crate::reply::ReplyView;

verus! {

broadcast use vstd::string::group_string_axioms;

/// A media type of an HTML page: one that begins with `text/html`.
pub open spec fn html_like(ct: Seq<char>) -> bool {
    ct.len() >= "text/html"@.len() && ct.subrange(0, "text/html"@.len() as int) == "text/html"@
}

/// A page is answered with the bridge in it, never from a cache unasked, and without a tag,
/// whatever its content id and its name.
pub proof fn law_page_answer(
    bytes: Seq<u8>,
    page: Seq<u8>,
    ct: Seq<char>,
    cid: Option<Seq<char>>,
    immutable: bool,
)
    requires
        html_like(ct),
    ensures
        crate::reply::file_reply(bytes, page, ct, cid, immutable) == (ReplyView {
            status: 200,
            content_type: Some(ct),
            cache_control: Some("no-cache, must-revalidate"@),
            etag: None,
            body: crate::html::bridged(bytes, page),
        }),
{
}

/// Any other file is answered byte for byte. It carries its content id in quotes as its tag, where
/// it has one, and is kept for a year where its name carries a hash, else asked about each time.
pub proof fn law_file_answer(
    bytes: Seq<u8>,
    page: Seq<u8>,
    ct: Seq<char>,
    cid: Seq<char>,
)
    requires
        !html_like(ct),
    ensures
        crate::reply::file_reply(bytes, page, ct, Some(cid), true) == (ReplyView {
            status: 200,
            content_type: Some(ct),
            cache_control: Some("public, max-age=31536000, immutable"@),
            etag: Some(seq!['"'] + cid + seq!['"']),
            body: bytes,
        }),
        crate::reply::file_reply(bytes, page, ct, Some(cid), false) == (ReplyView {
            status: 200,
            content_type: Some(ct),
            cache_control: Some("no-cache"@),
            etag: Some(seq!['"'] + cid + seq!['"']),
            body: bytes,
        }),
        crate::reply::file_reply(bytes, page, ct, None, true) == (ReplyView {
            status: 200,
            content_type: Some(ct),
            cache_control: Some("public, max-age=31536000, immutable"@),
            etag: None,
            body: bytes,
        }),
        crate::reply::file_reply(bytes, page, ct, None, false) == (ReplyView {
            status: 200,
            content_type: Some(ct),
            cache_control: Some("no-cache"@),
            etag: None,
            body: bytes,
        }),
{
}

/// The answers that carry no file.
pub proof fn law_plain_answers(cid: Seq<char>)
    ensures
        crate::reply::bad_path_view() == (ReplyView {
            status: 400,
            content_type: Some("text/plain; charset=utf-8"@),
            cache_control: None,
            etag: None,
            body: vstd::utf8::encode_utf8("bad path"@),
        }),
        crate::reply::not_found_view() == (ReplyView {
            status: 404,
            content_type: Some("text/plain; charset=utf-8"@),
            cache_control: None,
            etag: None,
            body: vstd::utf8::encode_utf8("not found"@),
        }),
        crate::reply::not_modified_view(cid) == (ReplyView {
            status: 304,
            content_type: None,
            cache_control: None,
            etag: Some(seq!['"'] + cid + seq!['"']),
            body: Seq::empty(),
        }),
{
}

} // verus!
