//! The bridge installer in a served HTML page.
use vstd::prelude::*;
use vstd::slice::{slice_subrange, slice_to_vec};

verus! {

broadcast use vstd::string::group_string_axioms;

/// The element that loads the bridge installer.
pub const BRIDGE_TAG: &'static str = "<script src=\"/__ce/mesh-bridge.js\"></script>";

/// The end of a page's head.
pub const HEAD_END: &'static str = "</head>";

/// The end of a page's body.
pub const BODY_END: &'static str = "</body>";

/// What `String::from_utf8_lossy` makes of some bytes, in UTF-8.
pub uninterp spec fn lossy_utf8(bytes: Seq<u8>) -> Seq<u8>;

/// Bytes that are all ASCII.
pub open spec fn is_ascii(bytes: Seq<u8>) -> bool {
    forall|i: int| 0 <= i < bytes.len() ==> #[trigger] bytes[i] <= 0x7f
}

/// `String::from_utf8_lossy`, the text handed back as its bytes. The result is a function of the
/// bytes alone, is UTF-8, and is the bytes themselves where they are UTF-8 already. Only sequences
/// that are not UTF-8 are replaced, each by U+FFFD; an ASCII byte is never part of one, so some
/// ASCII stands in the result where, and only where, it stands in the bytes. Which of the other
/// bytes make up one sequence is left unsaid.
#[verifier::external_body]
fn from_utf8_lossy(bytes: &[u8]) -> (r: Vec<u8>)
    ensures
        r@ == lossy_utf8(bytes@),
        vstd::utf8::valid_utf8(r@),
        vstd::utf8::valid_utf8(bytes@) ==> r@ == bytes@,
        forall|needle: Seq<u8>| #![trigger occurs(r@, needle)]
            needle.len() > 0 && is_ascii(needle) ==> occurs(r@, needle) == occurs(bytes@, needle),
{
    String::from_utf8_lossy(bytes).into_owned().into_bytes()
}

/// `needle` stands in `hay` at `i`.
pub open spec fn occurs_at(hay: Seq<u8>, needle: Seq<u8>, i: int) -> bool {
    0 <= i && i + needle.len() <= hay.len() && hay.subrange(i, i + needle.len()) == needle
}

/// `needle` stands in `hay` at `i`, and nowhere before.
pub open spec fn first_at(hay: Seq<u8>, needle: Seq<u8>, i: int) -> bool {
    occurs_at(hay, needle, i) && forall|j: int| j < i ==> !occurs_at(hay, needle, j)
}

/// `needle` stands somewhere in `hay`.
pub open spec fn occurs(hay: Seq<u8>, needle: Seq<u8>) -> bool {
    exists|i: int| occurs_at(hay, needle, i)
}

/// Where `needle` first stands in `hay`.
pub open spec fn find(hay: Seq<u8>, needle: Seq<u8>) -> Option<int> {
    if occurs(hay, needle) {
        Some(choose|i: int| first_at(hay, needle, i))
    } else {
        None
    }
}

proof fn lemma_first_exists(hay: Seq<u8>, needle: Seq<u8>, i: int)
    requires
        occurs_at(hay, needle, i),
    ensures
        exists|k: int| first_at(hay, needle, k),
    decreases i,
{
    if !first_at(hay, needle, i) {
        let j = choose|j: int| j < i && occurs_at(hay, needle, j);
        lemma_first_exists(hay, needle, j);
    }
}

pub(crate) proof fn lemma_find(hay: Seq<u8>, needle: Seq<u8>)
    ensures
        match find(hay, needle) {
            Some(i) => first_at(hay, needle, i),
            None => !occurs(hay, needle),
        },
{
    if occurs(hay, needle) {
        lemma_first_exists(hay, needle, choose|i: int| occurs_at(hay, needle, i));
    }
}

fn stands_at(hay: &[u8], needle: &[u8], i: usize) -> (r: bool)
    requires
        i + needle@.len() <= hay@.len(),
    ensures
        r == occurs_at(hay@, needle@, i as int),
{
    let n = hay.len();
    let mut k: usize = 0;
    while k < needle.len()
        invariant
            n == hay@.len(),
            k <= needle@.len(),
            i + needle@.len() <= hay@.len(),
            forall|j: int| 0 <= j < k ==> hay@[i + j] == needle@[j],
        decreases needle@.len() - k,
    {
        if hay[i + k] != needle[k] {
            assert(hay@.subrange(i as int, i + needle@.len())[k as int] != needle@[k as int]);
            return false;
        }
        k += 1;
    }
    assert(hay@.subrange(i as int, i + needle@.len()) == needle@);
    true
}

/// Where `needle` first stands in `hay`.
fn find_bytes(hay: &[u8], needle: &[u8]) -> (r: Option<usize>)
    ensures
        match r {
            Some(i) => find(hay@, needle@) == Some(i as int) && i + needle@.len() <= hay@.len(),
            None => find(hay@, needle@) is None,
        },
{
    proof {
        lemma_find(hay@, needle@);
    }
    if needle.len() > hay.len() {
        return None;
    }
    let last = hay.len() - needle.len();
    let mut i: usize = 0;
    while i <= last
        invariant
            last == hay@.len() - needle@.len(),
            i <= last + 1,
            forall|j: int| 0 <= j < i ==> !occurs_at(hay@, needle@, j),
        decreases last + 1 - i,
    {
        if stands_at(hay, needle, i) {
            assert(first_at(hay@, needle@, i as int));
            proof {
                lemma_find(hay@, needle@);
            }
            return Some(i);
        }
        if i == last {
            assert forall|j: int| !occurs_at(hay@, needle@, j) by {}
            return None;
        }
        i += 1;
    }
    None
}

/// The bytes of the element that loads the bridge installer.
pub open spec fn tag() -> Seq<u8> {
    vstd::utf8::encode_utf8(BRIDGE_TAG@)
}

/// Where the element goes: just before the first `</head>`, else just before the first `</body>`,
/// else at the end.
pub open spec fn anchor(page: Seq<u8>) -> int {
    match find(page, vstd::utf8::encode_utf8(HEAD_END@)) {
        Some(i) => i,
        None => match find(page, vstd::utf8::encode_utf8(BODY_END@)) {
            Some(i) => i,
            None => page.len() as int,
        },
    }
}

/// The page `html`, whose text is `page`, with the bridge element in it: `html` as it is where it
/// holds the element already, else the text with the element put in at its anchor.
pub open spec fn bridged(html: Seq<u8>, page: Seq<u8>) -> Seq<u8> {
    if occurs(html, tag()) {
        html
    } else {
        page.take(anchor(page)) + tag() + page.skip(anchor(page))
    }
}

/// Puts the bridge element into a page whose text is known.
pub fn bridge_page(html: &[u8], page: &Vec<u8>) -> (r: Vec<u8>)
    ensures
        r@ == bridged(html@, page@),
{
    if find_bytes(html, BRIDGE_TAG.as_bytes()).is_some() {
        return slice_to_vec(html);
    }
    let at = match find_bytes(page.as_slice(), HEAD_END.as_bytes()) {
        Some(i) => i,
        None => match find_bytes(page.as_slice(), BODY_END.as_bytes()) {
            Some(i) => i,
            None => page.len(),
        },
    };
    let mut out = slice_to_vec(slice_subrange(page.as_slice(), 0, at));
    let mut element = slice_to_vec(BRIDGE_TAG.as_bytes());
    let mut rest = slice_to_vec(slice_subrange(page.as_slice(), at, page.len()));
    out.append(&mut element);
    out.append(&mut rest);
    assert(page@.take(at as int) == page@.subrange(0, at as int));
    assert(page@.skip(at as int) == page@.subrange(at as int, page@.len() as int));
    out
}

/// Inserts the bridge installer into an HTML document, so that the served page needs no script
/// element of its own. A document that has the element, which its text then has too, is handed
/// back as it is.
pub fn inject_bridge(html: &[u8]) -> (r: Vec<u8>)
    ensures
        r@ == bridged(html@, lossy_utf8(html@)),
        vstd::utf8::valid_utf8(html@) ==> r@ == bridged(html@, html@),
        occurs(lossy_utf8(html@), tag()) <==> occurs(html@, tag()),
        vstd::utf8::valid_utf8(r@) || r@ == html@,
        occurs(r@, tag()),
{
    let page = from_utf8_lossy(html);
    proof {
        lemma_bridged_is_text(html@, page@);
        law_bridged_has_element(html@, page@);
        lemma_tag_is_ascii();
        assert(occurs(page@, tag()) == occurs(html@, tag()));
    }
    bridge_page(html, &page)
}

proof fn lemma_tag_is_ascii()
    ensures
        tag().len() > 0,
        is_ascii(tag()),
{
    reveal_strlit("<script src=\"/__ce/mesh-bridge.js\"></script>");
    vstd::utf8::is_ascii_chars_encode_utf8(BRIDGE_TAG@);
    assert forall|i: int| 0 <= i < tag().len() implies #[trigger] tag()[i] <= 0x7f by {
        assert(BRIDGE_TAG@[i] as u8 == tag()[i]);
    }
}

proof fn lemma_starts_with_bracket(page: Seq<u8>)
    ensures
        find(page, vstd::utf8::encode_utf8(HEAD_END@)) matches Some(i) ==> 0 <= i < page.len()
            && page[i] == 0x3c,
        find(page, vstd::utf8::encode_utf8(BODY_END@)) matches Some(i) ==> 0 <= i < page.len()
            && page[i] == 0x3c,
{
    let h = vstd::utf8::encode_utf8(HEAD_END@);
    let b = vstd::utf8::encode_utf8(BODY_END@);
    reveal_strlit("</head>");
    reveal_strlit("</body>");
    vstd::utf8::is_ascii_chars_encode_utf8(HEAD_END@);
    vstd::utf8::is_ascii_chars_encode_utf8(BODY_END@);
    assert(HEAD_END@[0] == '<' && BODY_END@[0] == '<');
    assert(h[0] == 0x3c && b[0] == 0x3c);
    lemma_find(page, h);
    lemma_find(page, b);
    if let Some(i) = find(page, h) {
        assert(page.subrange(i, i + h.len())[0] == page[i]);
    }
    if let Some(i) = find(page, b) {
        assert(page.subrange(i, i + b.len())[0] == page[i]);
    }
}

proof fn lemma_bridged_is_text(html: Seq<u8>, page: Seq<u8>)
    requires
        vstd::utf8::valid_utf8(page),
    ensures
        0 <= anchor(page) <= page.len(),
        vstd::utf8::valid_utf8(bridged(html, page)) || occurs(html, tag()),
{
    let a = anchor(page);
    lemma_starts_with_bracket(page);
    if a < page.len() {
        vstd::utf8::is_char_boundary_iff_not_is_continuation_byte(page, a);
    } else {
        vstd::utf8::is_char_boundary_start_end_of_seq(page);
    }
    vstd::utf8::valid_utf8_split(page, a);
    assert(page.take(a) == page.subrange(0, a));
    assert(page.skip(a) == page.subrange(a, page.len() as int));
    vstd::utf8::encode_utf8_valid_utf8(BRIDGE_TAG@);
    vstd::utf8::valid_utf8_concat(page.take(a), tag());
    vstd::utf8::valid_utf8_concat(page.take(a) + tag(), page.skip(a));
}

/// The element stands in every bridged page, whatever bytes the page is made of.
pub proof fn law_bridged_has_element(html: Seq<u8>, page: Seq<u8>)
    ensures
        occurs(bridged(html, page), tag()),
{
    if !occurs(html, tag()) {
        law_bridging_keeps_page(html, page);
    }
}

/// A page is bridged once: bridging what came out, whatever its text, changes nothing.
pub proof fn law_bridged_once(html: Seq<u8>, page: Seq<u8>, again: Seq<u8>)
    ensures
        bridged(bridged(html, page), again) == bridged(html, page),
{
    law_bridged_has_element(html, page);
}

/// Bridging loses nothing of the page: without the element it put in, the text is there as it was.
pub proof fn law_bridging_keeps_page(html: Seq<u8>, page: Seq<u8>)
    requires
        !occurs(html, tag()),
    ensures
        bridged(html, page).len() == page.len() + tag().len(),
        bridged(html, page).take(anchor(page)) + bridged(html, page).skip(
            anchor(page) + tag().len(),
        ) == page,
        occurs_at(bridged(html, page), tag(), anchor(page)),
{
    lemma_starts_with_bracket(page);
    let a = anchor(page);
    let out = bridged(html, page);
    assert(out.subrange(a, a + tag().len()) =~= tag());
    assert(out.take(a) + out.skip(a + tag().len()) =~= page);
}

/// The element does not overlap itself: no shorter shift of it agrees with it.
proof fn lemma_tag_has_no_border(shift: int)
    requires
        0 < shift < tag().len(),
    ensures
        exists|k: int| 0 <= k < tag().len() - shift && #[trigger] tag()[shift + k] != tag()[k],
{
    reveal_strlit("<script src=\"/__ce/mesh-bridge.js\"></script>");
    vstd::utf8::is_ascii_chars_encode_utf8(BRIDGE_TAG@);
    let t = tag();
    assert(BRIDGE_TAG@[0] == '<' && BRIDGE_TAG@[1] == 's');
    assert(t[0] == 0x3c && t[1] == 0x73);
    if t[shift + 0] == t[0] {
        assert(BRIDGE_TAG@[shift] as u8 == t[shift]);
        assert(BRIDGE_TAG@[shift] == '<');
        assert(shift == 35);
        assert(BRIDGE_TAG@[36] == '/');
        assert(t[shift + 1] != t[1]);
    }
}

/// A page that did not have the element has it exactly once when it is bridged. For a page in
/// UTF-8, which is its own text, `html` and `page` are the same.
pub proof fn law_element_stands_once(html: Seq<u8>, page: Seq<u8>)
    requires
        !occurs(html, tag()),
        !occurs(page, tag()),
    ensures
        occurs_at(bridged(html, page), tag(), anchor(page)),
        forall|i: int| occurs_at(bridged(html, page), tag(), i) ==> i == anchor(page),
{
    let t = tag();
    let n = t.len() as int;
    let a = anchor(page);
    let out = bridged(html, page);
    lemma_starts_with_bracket(page);
    law_bridging_keeps_page(html, page);
    assert forall|i: int| occurs_at(out, t, i) implies i == a by {
        assert forall|k: int| 0 <= k < n implies #[trigger] t[k] == out[i + k] by {
            assert(out.subrange(i, i + n)[k] == out[i + k]);
        }
        if i + n <= a {
            assert(page.subrange(i, i + n) =~= t);
            assert(occurs_at(page, t, i));
        } else if i >= a + n {
            assert(page.subrange(i - n, i) =~= t);
            assert(occurs_at(page, t, i - n));
        } else if i < a {
            lemma_tag_has_no_border(a - i);
            let k = choose|k: int| 0 <= k < n - (a - i) && #[trigger] t[(a - i) + k] != t[k];
            assert(out[i + ((a - i) + k)] == t[(a - i) + k]);
            assert(out[a + k] == t[k]);
        } else if i > a {
            lemma_tag_has_no_border(i - a);
            let k = choose|k: int| 0 <= k < n - (i - a) && #[trigger] t[(i - a) + k] != t[k];
            assert(out[i + k] == t[k]);
            assert(out[a + ((i - a) + k)] == t[(i - a) + k]);
        }
    }
}

} // verus!
