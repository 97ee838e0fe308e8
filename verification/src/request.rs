//! What a request asks for: the host it names and the content it says it holds.
use vstd::prelude::*;
use crate::text::{chars_of, first_index, stripped, stripped_front, text_of, to_lower, CharSet};

verus! {

broadcast use vstd::string::group_string_axioms;

/// The host in `host:port`: what stands before the first colon. An IPv6 literal stands in brackets,
/// and its colons are its own: in a text that begins with a bracket and has a closing one, the
/// colon is looked for behind that.
pub open spec fn host_part(h: Seq<char>) -> Seq<char> {
    match h.index_of_first(']') {
        Some(j) if h[0] == '[' => h.take(j + 1) + crate::text::before_first(h.skip(j + 1), ':'),
        _ => crate::text::before_first(h, ':'),
    }
}

/// The host that a `Host` header names: without port and surrounding white space, in small
/// letters.
pub open spec fn named_host(header: Seq<char>) -> Seq<char> {
    crate::text::lower(
        crate::text::strip(
            host_part(crate::text::strip_front(header, CharSet::White)),
            CharSet::White,
        ),
    )
}

/// The host of a request: the one its header names, else the default.
pub open spec fn request_host(header: Option<Seq<char>>, default: Seq<char>) -> Seq<char> {
    match header {
        Some(h) if named_host(h).len() > 0 => named_host(h),
        _ => crate::text::lower(default),
    }
}

/// The host in `host:port`.
fn without_port(h: &str) -> (r: String)
    ensures
        r@ == host_part(h@),
{
    let v = chars_of(h);
    let n = v.len();
    proof {
        v@.index_of_first_ensures(']');
        assert(v@.skip(0) =~= v@);
    }
    let from: usize = match first_index(&v, ']') {
        Some(close) if v[0] == '[' => close + 1,
        _ => 0,
    };
    let ghost rest = v@.skip(from as int);
    let mut cut: usize = from;
    while cut < n && v[cut] != ':'
        invariant
            from <= cut <= n,
            n == v@.len(),
            forall|k: int| from <= k < cut ==> v@[k] != ':',
        decreases n - cut,
    {
        cut += 1;
    }
    proof {
        rest.index_of_first_ensures(':');
        match rest.index_of_first(':') {
            Some(i) => {
                assert(rest[i] == v@[from + i]);
                if cut < from + i {
                    assert(rest[cut - from] == v@[cut as int]);
                }
                assert(cut == from + i);
            },
            None => {
                if cut < n {
                    assert(rest[cut - from] == ':');
                }
                assert(cut == n);
            },
        }
        assert(v@.subrange(0, cut as int) =~= v@.take(from as int) + crate::text::before_first(
            rest,
            ':',
        ));
        assert(v@.take(0) + crate::text::before_first(v@, ':') =~= crate::text::before_first(
            v@,
            ':',
        ));
    }
    text_of(&v, 0, cut)
}

/// The host of a request, in small letters and without its port. The default stands in where the
/// header is missing, is not text, or names no host.
pub fn req_host(header: Option<&str>, default: &str) -> (r: String)
    ensures
        r@ == request_host(crate::text::text_ref(header), default@),
{
    if let Some(h) = header {
        let name = without_port(stripped_front(h, CharSet::White).as_str());
        let bare = stripped(name.as_str(), CharSet::White);
        let host = to_lower(bare.as_str());
        if !host.as_str().is_empty() {
            return host;
        }
    }
    to_lower(default)
}

/// The content id in an `If-None-Match` header: without surrounding white space, then without
/// surrounding double quotes.
pub open spec fn tag_in(header: Seq<char>) -> Seq<char> {
    crate::text::strip(crate::text::strip(header, CharSet::White), CharSet::Only('"'))
}

/// The content id that a client says it holds.
pub open spec fn held_content(header: Option<Seq<char>>) -> Option<Seq<char>> {
    match header {
        Some(h) => Some(tag_in(h)),
        None => None,
    }
}

/// The content id that a client says it holds, from its `If-None-Match` header.
pub fn held_tag(header: Option<&str>) -> (r: Option<String>)
    ensures
        crate::text::text(r) == held_content(crate::text::text_ref(header)),
{
    match header {
        Some(h) => {
            let bare = stripped(h, CharSet::White);
            Some(stripped(bare.as_str(), CharSet::Only('"')))
        },
        None => None,
    }
}

proof fn lemma_lower_char(c: char)
    ensures
        crate::text::lower_char(crate::text::lower_char(c)) == crate::text::lower_char(c),
        crate::text::is_white(crate::text::lower_char(c)) == crate::text::is_white(c),
        (crate::text::lower_char(c) == ':') == (c == ':'),
        (crate::text::lower_char(c) == '[') == (c == '['),
        (crate::text::lower_char(c) == ']') == (c == ']'),
{
    if 'A' <= c <= 'Z' {
        let d = (c as u8 + 32) as u8;
        assert(crate::text::lower_char(c) == d as char);
        assert('a' <= d as char <= 'z');
    }
}

proof fn lemma_lower_strip_front(s: Seq<char>)
    ensures
        crate::text::lower(crate::text::strip_front(s, CharSet::White))
            == crate::text::strip_front(crate::text::lower(s), CharSet::White),
    decreases s.len(),
{
    if s.len() > 0 {
        lemma_lower_char(s[0]);
        lemma_lower_strip_front(s.drop_first());
        assert(crate::text::lower(s).drop_first() =~= crate::text::lower(s.drop_first()));
    }
}

proof fn lemma_lower_strip_back(s: Seq<char>)
    ensures
        crate::text::lower(crate::text::strip_back(s, CharSet::White)) == crate::text::strip_back(
            crate::text::lower(s),
            CharSet::White,
        ),
    decreases s.len(),
{
    if s.len() > 0 {
        lemma_lower_char(s.last());
        lemma_lower_strip_back(s.drop_last());
        assert(crate::text::lower(s).drop_last() =~= crate::text::lower(s.drop_last()));
    }
}

proof fn lemma_lower_index(s: Seq<char>, c: char)
    requires
        c == ':' || c == ']',
    ensures
        crate::text::lower(s).index_of_first(c) == s.index_of_first(c),
{
    let t = crate::text::lower(s);
    s.index_of_first_ensures(c);
    t.index_of_first_ensures(c);
    assert forall|i: int| 0 <= i < s.len() implies (t[i] == c) == (#[trigger] s[i] == c) by {
        lemma_lower_char(s[i]);
    }
    match (s.index_of_first(c), t.index_of_first(c)) {
        (Some(i), Some(j)) => {
            assert(t[i] == c);
            assert(s[j] == c);
        },
        (Some(i), None) => {
            assert(t[i] == c);
        },
        (None, Some(j)) => {
            assert(s[j] == c);
        },
        (None, None) => {},
    }
}

proof fn lemma_lower_before(s: Seq<char>)
    ensures
        crate::text::lower(crate::text::before_first(s, ':')) == crate::text::before_first(
            crate::text::lower(s),
            ':',
        ),
{
    lemma_lower_index(s, ':');
    s.index_of_first_ensures(':');
    if let Some(i) = s.index_of_first(':') {
        assert(crate::text::lower(s.take(i)) =~= crate::text::lower(s).take(i));
    }
}

proof fn lemma_lower_host_part(s: Seq<char>)
    ensures
        crate::text::lower(host_part(s)) == host_part(crate::text::lower(s)),
{
    let t = crate::text::lower(s);
    lemma_lower_index(s, ']');
    lemma_lower_before(s);
    s.index_of_first_ensures(']');
    if s.len() > 0 {
        lemma_lower_char(s[0]);
    }
    if let Some(j) = s.index_of_first(']') {
        let front = s.take(j + 1);
        let back = crate::text::before_first(s.skip(j + 1), ':');
        lemma_lower_before(s.skip(j + 1));
        assert(crate::text::lower(s.skip(j + 1)) =~= t.skip(j + 1));
        assert(crate::text::lower(front) =~= t.take(j + 1));
        assert(crate::text::lower(front + back) =~= crate::text::lower(front)
            + crate::text::lower(back));
    }
}

proof fn lemma_named_host(h: Seq<char>)
    ensures
        named_host(h) == crate::text::strip(
            host_part(crate::text::strip_front(crate::text::lower(h), CharSet::White)),
            CharSet::White,
        ),
{
    let b = host_part(crate::text::strip_front(h, CharSet::White));
    lemma_lower_strip_front(h);
    lemma_lower_host_part(crate::text::strip_front(h, CharSet::White));
    lemma_lower_strip_front(b);
    lemma_lower_strip_back(crate::text::strip_front(b, CharSet::White));
}

proof fn lemma_strip_front_of_sum(a: Seq<char>, b: Seq<char>)
    requires
        b.len() > 0,
        !crate::text::is_white(b[0]),
    ensures
        crate::text::strip_front(a + b, CharSet::White) == crate::text::strip_front(
            a,
            CharSet::White,
        ) + b,
    decreases a.len(),
{
    if a.len() == 0 {
        assert(a + b =~= b);
    } else {
        lemma_strip_front_of_sum(a.drop_first(), b);
        assert((a + b).drop_first() =~= a.drop_first() + b);
    }
}

proof fn lemma_before_port(host: Seq<char>, port: Seq<char>)
    ensures
        crate::text::before_first(host + seq![':'] + port, ':') == crate::text::before_first(
            host,
            ':',
        ),
{
    let full = host + seq![':'] + port;
    host.index_of_first_ensures(':');
    full.index_of_first_ensures(':');
    assert(full[host.len() as int] == ':');
    match (host.index_of_first(':'), full.index_of_first(':')) {
        (Some(i), Some(j)) => {
            assert(full[i] == host[i]);
            assert(host[j] == full[j]);
            assert(full.take(j) =~= host.take(i));
        },
        (None, Some(j)) => {
            if j < host.len() {
                assert(host[j] == full[j]);
            }
            assert(full.take(j) =~= host);
        },
        _ => {},
    }
}

/// A text that opens a bracket and does not close it.
pub open spec fn unclosed(host: Seq<char>) -> bool {
    let h = crate::text::strip_front(host, CharSet::White);
    h.len() > 0 && h[0] == '[' && !h.contains(']')
}

/// Capitals in a host make no difference.
pub proof fn law_host_ignores_case(a: Seq<char>, b: Seq<char>, default: Seq<char>)
    requires
        crate::text::lower(a) == crate::text::lower(b),
    ensures
        request_host(Some(a), default) == request_host(Some(b), default),
{
    lemma_named_host(a);
    lemma_named_host(b);
}

/// The port behind a host makes no difference, unless it closes a bracket that the host opens.
pub proof fn law_host_ignores_port(host: Seq<char>, port: Seq<char>, default: Seq<char>)
    requires
        unclosed(host) ==> !port.contains(']'),
    ensures
        request_host(Some(host + seq![':'] + port), default) == request_host(Some(host), default),
{
    let a = crate::text::strip_front(host, CharSet::White);
    let tail = seq![':'] + port;
    let full = a + seq![':'] + port;
    assert(tail[0] == ':');
    lemma_strip_front_of_sum(host, tail);
    assert(host + seq![':'] + port =~= host + tail);
    assert(a + tail =~= full);
    lemma_before_port(a, port);
    a.index_of_first_ensures(']');
    full.index_of_first_ensures(']');
    if a.len() > 0 {
        assert(full[0] == a[0]);
    } else {
        assert(full[0] == ':');
    }
    match (a.index_of_first(']'), full.index_of_first(']')) {
        (Some(i), Some(j)) => {
            assert(full[i] == ']');
            assert(a[j] == full[j]);
            assert(full.take(j + 1) =~= a.take(i + 1));
            lemma_before_port(a.skip(i + 1), port);
            assert(full.skip(j + 1) =~= a.skip(i + 1) + seq![':'] + port);
        },
        (Some(i), None) => {
            assert(full[i] == ']');
        },
        (None, Some(j)) => {
            if j < a.len() {
                assert(a[j] == full[j]);
            } else {
                assert(port[j - a.len() - 1] == full[j]);
            }
        },
        (None, None) => {},
    }
    assert(host_part(full) == host_part(a));
}

/// A host as it is published: not empty, no white space around it, and no port, which is no colon
/// but for those inside its brackets.
pub open spec fn is_bare_host(name: Seq<char>) -> bool {
    &&& name.len() > 0
    &&& !crate::text::is_white(name[0])
    &&& !crate::text::is_white(name.last())
    &&& match name.index_of_first(']') {
        Some(j) if name[0] == '[' => !name.skip(j + 1).contains(':'),
        _ => !name.contains(':'),
    }
}

/// A bare host names itself, in small letters.
pub proof fn law_bare_host_is_its_name(name: Seq<char>, default: Seq<char>)
    requires
        is_bare_host(name),
    ensures
        request_host(Some(name), default) == crate::text::lower(name),
{
    name.index_of_first_ensures(':');
    name.index_of_first_ensures(']');
    if let Some(j) = name.index_of_first(']') {
        name.skip(j + 1).index_of_first_ensures(':');
        assert(name.take(j + 1) + name.skip(j + 1) =~= name);
    }
    assert(host_part(name) == name);
    assert(crate::text::strip_front(name, CharSet::White) == name);
    assert(crate::text::strip(name, CharSet::White) == name);
}

/// The host of a request has no ASCII capitals.
pub proof fn law_host_is_lower(header: Option<Seq<char>>, default: Seq<char>)
    ensures
        crate::text::lower(request_host(header, default)) == request_host(header, default),
{
    let h = request_host(header, default);
    let s = match header {
        Some(x) if named_host(x).len() > 0 => crate::text::strip(
            host_part(crate::text::strip_front(x, CharSet::White)),
            CharSet::White,
        ),
        _ => default,
    };
    assert forall|i: int| 0 <= i < h.len() implies crate::text::lower_char(#[trigger] h[i])
        == h[i] by {
        lemma_lower_char(s[i]);
    }
    assert(crate::text::lower(h) =~= h);
}

/// A content id that neither begins nor ends with a double quote comes back from the tag that was
/// made of it.
pub proof fn law_tag_round_trip(cid: Seq<char>)
    requires
        cid.len() > 0 ==> cid[0] != '"' && cid.last() != '"',
    ensures
        tag_in(crate::text::quoted(cid)) == cid,
{
    let q = crate::text::quoted(cid);
    let set = CharSet::Only('"');
    assert(q[0] == '"' && q.last() == '"');
    assert(crate::text::strip(q, CharSet::White) == q);
    assert(q.drop_first() =~= cid + seq!['"']);
    reveal_with_fuel(crate::text::strip_front, 3);
    reveal_with_fuel(crate::text::strip_back, 3);
    let t = cid + seq!['"'];
    if cid.len() == 0 {
        assert(t.drop_first() =~= Seq::<char>::empty());
        assert(crate::text::strip_front(q, set) =~= cid);
    } else {
        assert(t[0] == cid[0]);
        assert(crate::text::strip_front(q, set) == t);
        assert(t.drop_last() =~= cid);
    }
}

} // verus!
