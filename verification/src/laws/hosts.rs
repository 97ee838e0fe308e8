//! Laws of the request's host and of the content it says it holds.
use vstd::prelude::*;
use crate::text::CharSet;

verus! {

broadcast use vstd::string::group_string_axioms;

/// All white space.
pub open spec fn blank(s: Seq<char>) -> bool {
    forall|i: int| 0 <= i < s.len() ==> crate::text::is_white(#[trigger] s[i])
}

/// Nothing, or a colon and what is behind it.
pub open spec fn port_like(s: Seq<char>) -> bool {
    s.len() > 0 ==> s[0] == ':'
}

proof fn lemma_up_to_port(a: Seq<char>, port: Seq<char>)
    requires
        !a.contains(':'),
        port_like(port),
    ensures
        crate::text::before_first(a + port, ':') == a,
{
    if port.len() > 0 {
        crate::laws::texts::law_before_first(a, port.drop_first(), ':');
        assert(a + port =~= a + seq![':'] + port.drop_first());
    } else {
        crate::laws::texts::law_before_first(a, port, ':');
        assert(a + port =~= a);
    }
}

proof fn lemma_no_colon(a: Seq<char>, b: Seq<char>)
    requires
        !a.contains(':'),
        blank(b),
    ensures
        !(a + b).contains(':'),
{
    if (a + b).contains(':') {
        let k = choose|k: int| 0 <= k < (a + b).len() && (a + b)[k] == ':';
        if k < a.len() {
            assert(a[k] == ':');
        } else {
            assert(crate::text::is_white(b[k - a.len()]));
        }
    }
}

/// The host of a request is the name in its header, all of it, in small letters: the white space
/// around the name goes, and so does the port.
pub proof fn law_host_is_the_name(
    before: Seq<char>,
    name: Seq<char>,
    after: Seq<char>,
    port: Seq<char>,
    default: Seq<char>,
)
    requires
        blank(before),
        blank(after),
        port_like(port),
        name.len() > 0,
        !crate::text::is_white(name[0]),
        !crate::text::is_white(name.last()),
        name[0] != '[',
        !name.contains(':'),
    ensures
        crate::request::request_host(Some(before + name + after + port), default)
            == crate::text::lower(name),
{
    let h = name + after + port;
    assert(before + name + after + port =~= before + h);
    assert(h[0] == name[0]);
    crate::laws::texts::lemma_strip_front_run(before, h, CharSet::White);
    h.index_of_first_ensures(']');
    lemma_no_colon(name, after);
    lemma_up_to_port(name + after, port);
    let none = Seq::<char>::empty();
    crate::laws::texts::law_strip_white(none, name, after);
    assert(none + name + after =~= name + after);
}

/// An IPv6 literal is a host with its brackets and with the colons between them; what stands behind
/// the closing bracket is the host's up to the port.
pub proof fn law_host_is_the_literal(
    before: Seq<char>,
    inner: Seq<char>,
    more: Seq<char>,
    after: Seq<char>,
    port: Seq<char>,
    default: Seq<char>,
)
    requires
        blank(before),
        blank(after),
        port_like(port),
        !inner.contains(']'),
        !more.contains(':'),
        more.len() > 0 ==> !crate::text::is_white(more.last()),
    ensures
        crate::request::request_host(
            Some(before + seq!['['] + inner + seq![']'] + more + after + port),
            default,
        ) == crate::text::lower(seq!['['] + inner + seq![']'] + more),
{
    let name = seq!['['] + inner + seq![']'] + more;
    let h = name + after + port;
    let header = before + seq!['['] + inner + seq![']'] + more + after + port;
    assert(header =~= before + h);
    assert(h[0] == '[');
    crate::laws::texts::lemma_strip_front_run(before, h, CharSet::White);
    h.index_of_first_ensures(']');
    let close = inner.len() as int + 1;
    assert(h[close] == ']');
    let j = h.index_of_first(']')->0;
    if j < close {
        assert(j > 0);
        assert(inner[j - 1] == h[j]);
    }
    assert(j == close);
    assert(h.take(j + 1) =~= seq!['['] + inner + seq![']']);
    assert(h.skip(j + 1) =~= more + after + port);
    lemma_no_colon(more, after);
    lemma_up_to_port(more + after, port);
    let none = Seq::<char>::empty();
    assert(name[0] == '[');
    assert(name.last() == (if more.len() > 0 {
        more.last()
    } else {
        ']'
    }));
    crate::laws::texts::law_strip_white(none, name, after);
    assert(none + name + after =~= h.take(j + 1) + (more + after));
}

/// A request that names no host has the default one, in small letters.
pub proof fn law_default_stands_in(gap: Seq<char>, port: Seq<char>, default: Seq<char>)
    requires
        blank(gap),
        port_like(port),
    ensures
        crate::request::request_host(None, default) == crate::text::lower(default),
        crate::request::request_host(Some(gap + port), default) == crate::text::lower(default),
{
    let none = Seq::<char>::empty();
    crate::laws::texts::lemma_strip_front_run(gap, port, CharSet::White);
    port.index_of_first_ensures(']');
    lemma_up_to_port(none, port);
    assert(none + port =~= port);
    assert(crate::text::strip(none, CharSet::White) =~= none);
    assert(crate::request::named_host(gap + port).len() == 0);
}

/// What a client says it holds is the text in its header, without the white space around it and
/// the quotes around that, and otherwise unchanged. A client that sends no header holds nothing.
pub proof fn law_held_is_the_tag(
    before: Seq<char>,
    open: Seq<char>,
    cid: Seq<char>,
    close: Seq<char>,
    after: Seq<char>,
)
    requires
        blank(before),
        blank(after),
        forall|i: int| 0 <= i < open.len() ==> #[trigger] open[i] == '"',
        forall|i: int| 0 <= i < close.len() ==> #[trigger] close[i] == '"',
        cid.len() > 0,
        cid[0] != '"' && cid.last() != '"',
        open.len() > 0 || !crate::text::is_white(cid[0]),
        close.len() > 0 || !crate::text::is_white(cid.last()),
    ensures
        crate::request::held_content(Some(before + (open + cid + close) + after)) == Some(cid),
        crate::request::held_content(None) is None,
{
    let t = open + cid + close;
    assert(t[0] == (if open.len() > 0 {
        open[0]
    } else {
        cid[0]
    }));
    assert(t.last() == (if close.len() > 0 {
        close.last()
    } else {
        cid.last()
    }));
    crate::laws::texts::law_strip_white(before, t, after);
    crate::laws::texts::law_strip_one(open, cid, close, '"');
}

} // verus!
