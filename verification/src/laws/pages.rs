//! Laws of the bridge element in a page.
use vstd::prelude::*;

verus! {

broadcast use vstd::string::group_string_axioms;

/// `word`, in UTF-8, stands in `page` from `i` on.
pub open spec fn stands(page: Seq<u8>, word: Seq<char>, i: int) -> bool {
    let w = vstd::utf8::encode_utf8(word);
    0 <= i && i + w.len() <= page.len() && page.subrange(i, i + w.len()) == w
}

proof fn lemma_least(page: Seq<u8>, word: Seq<char>, i: int)
    requires
        stands(page, word, i),
        forall|j: int| j < i ==> !stands(page, word, j),
    ensures
        crate::html::find(page, vstd::utf8::encode_utf8(word)) == Some(i),
{
    let w = vstd::utf8::encode_utf8(word);
    assert(crate::html::occurs_at(page, w, i));
    crate::html::lemma_find(page, w);
    let k = crate::html::find(page, w)->0;
    assert(stands(page, word, k));
    if k > i {
        assert(!crate::html::occurs_at(page, w, i));
    }
}

proof fn lemma_absent(page: Seq<u8>, word: Seq<char>)
    requires
        forall|j: int| !stands(page, word, j),
    ensures
        !crate::html::occurs(page, vstd::utf8::encode_utf8(word)),
        crate::html::find(page, vstd::utf8::encode_utf8(word)) is None,
{
    let w = vstd::utf8::encode_utf8(word);
    assert forall|j: int| !crate::html::occurs_at(page, w, j) by {
        assert(!stands(page, word, j));
    }
}

/// In a page with an end of its head, the element goes in just before the first one, and the page
/// is around it as it was. A page in UTF-8 is its own text: there `html` and `page` are the same.
pub proof fn law_element_goes_before_head_end(html: Seq<u8>, page: Seq<u8>, i: int)
    requires
        forall|j: int| !stands(html, "<script src=\"/__ce/mesh-bridge.js\"></script>"@, j),
        stands(page, "</head>"@, i),
        forall|j: int| j < i ==> !stands(page, "</head>"@, j),
    ensures
        crate::html::bridged(html, page) == page.subrange(0, i) + vstd::utf8::encode_utf8(
            "<script src=\"/__ce/mesh-bridge.js\"></script>"@,
        ) + page.subrange(i, page.len() as int),
{
    lemma_absent(html, "<script src=\"/__ce/mesh-bridge.js\"></script>"@);
    lemma_least(page, "</head>"@, i);
    assert(page.take(i) =~= page.subrange(0, i));
    assert(page.skip(i) =~= page.subrange(i, page.len() as int));
}

/// In a page without an end of its head, but with one of its body, the element goes in just before
/// the first of those.
pub proof fn law_element_goes_before_body_end(html: Seq<u8>, page: Seq<u8>, i: int)
    requires
        forall|j: int| !stands(html, "<script src=\"/__ce/mesh-bridge.js\"></script>"@, j),
        forall|j: int| !stands(page, "</head>"@, j),
        stands(page, "</body>"@, i),
        forall|j: int| j < i ==> !stands(page, "</body>"@, j),
    ensures
        crate::html::bridged(html, page) == page.subrange(0, i) + vstd::utf8::encode_utf8(
            "<script src=\"/__ce/mesh-bridge.js\"></script>"@,
        ) + page.subrange(i, page.len() as int),
{
    lemma_absent(html, "<script src=\"/__ce/mesh-bridge.js\"></script>"@);
    lemma_absent(page, "</head>"@);
    lemma_least(page, "</body>"@, i);
    assert(page.take(i) =~= page.subrange(0, i));
    assert(page.skip(i) =~= page.subrange(i, page.len() as int));
}

/// In a page with neither, the element goes behind the page.
pub proof fn law_element_goes_behind(html: Seq<u8>, page: Seq<u8>)
    requires
        forall|j: int| !stands(html, "<script src=\"/__ce/mesh-bridge.js\"></script>"@, j),
        forall|j: int| !stands(page, "</head>"@, j),
        forall|j: int| !stands(page, "</body>"@, j),
    ensures
        crate::html::bridged(html, page) == page + vstd::utf8::encode_utf8(
            "<script src=\"/__ce/mesh-bridge.js\"></script>"@,
        ),
{
    lemma_absent(html, "<script src=\"/__ce/mesh-bridge.js\"></script>"@);
    lemma_absent(page, "</head>"@);
    lemma_absent(page, "</body>"@);
    assert(crate::html::bridged(html, page) =~= page + vstd::utf8::encode_utf8(
        "<script src=\"/__ce/mesh-bridge.js\"></script>"@,
    ));
}

/// A page that has the element goes out byte for byte as it is.
pub proof fn law_page_with_element_is_kept(html: Seq<u8>, page: Seq<u8>, i: int)
    requires
        stands(html, "<script src=\"/__ce/mesh-bridge.js\"></script>"@, i),
    ensures
        crate::html::bridged(html, page) == html,
{
    assert(crate::html::occurs_at(html, crate::html::tag(), i));
}

} // verus!
