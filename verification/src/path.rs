//! Request paths: the storage key of a path, its media type, and whether its name carries a hash.
use vstd::prelude::*;
use crate::text::{
    CharSet, chars_of, last_index, same_text, stripped_front, tail_behind, text_of, to_lower,
};

verus! {

broadcast use vstd::string::group_string_axioms;

/// `p[i..j]` is a whole segment of the path `p`: a slash or an end of `p` on either side, and no
/// slash inside.
pub open spec fn is_segment(p: Seq<char>, i: int, j: int) -> bool {
    &&& 0 <= i <= j <= p.len()
    &&& i == 0 || p[i - 1] == '/'
    &&& j == p.len() || p[j] == '/'
    &&& forall|k: int| i <= k < j ==> p[k] != '/'
}

/// A segment that names something below where it stands.
pub open spec fn safe_segment(seg: Seq<char>) -> bool {
    seg.len() > 0 && seg != seq!['.'] && seg != seq!['.', '.']
}

/// A storage key: empty, or a path all of whose segments are safe.
pub open spec fn safe_key(p: Seq<char>) -> bool {
    p.len() == 0 || forall|i: int, j: int| #[trigger]
        is_segment(p, i, j) ==> safe_segment(p.subrange(i, j))
}

/// The storage key of a request path: the path without its leading slashes, if that is safe.
pub open spec fn storage_key(raw: Seq<char>) -> Option<Seq<char>> {
    let p = crate::text::strip_front(raw, CharSet::Only('/'));
    if safe_key(p) {
        Some(p)
    } else {
        None
    }
}

/// Normalises a request path into a safe storage key. The leading slashes go; an empty, `.` or `..`
/// segment refuses the path; `/` is the empty key.
pub fn norm_path(raw: &str) -> (r: Option<String>)
    ensures
        crate::text::text(r) == storage_key(raw@),
{
    let key = stripped_front(raw, CharSet::Only('/'));
    let p = chars_of(key.as_str());
    if p.len() == 0 {
        return Some(key);
    }
    let mut start: usize = 0;
    let mut i: usize = 0;
    loop
        invariant
            p@ == key@,
            p@.len() > 0,
            0 <= start <= i <= p@.len(),
            start == 0 || p@[start - 1] == '/',
            forall|k: int| start <= k < i ==> p@[k] != '/',
            forall|a: int, b: int| #[trigger]
                is_segment(p@, a, b) && b < start ==> safe_segment(p@.subrange(a, b)),
            key@ == crate::text::strip_front(raw@, CharSet::Only('/')),
        decreases p@.len() - i,
    {
        if i == p.len() || p[i] == '/' {
            let ghost seg = p@.subrange(start as int, i as int);
            assert(is_segment(p@, start as int, i as int));
            let bad = i == start || (i - start == 1 && p[start] == '.') || (i - start == 2
                && p[start] == '.' && p[start + 1] == '.');
            assert(bad == !safe_segment(seg)) by {
                if seg == seq!['.'] {
                    assert(seg.len() == 1 && seg[0] == '.');
                }
                if seg == seq!['.', '.'] {
                    assert(seg.len() == 2 && seg[0] == '.' && seg[1] == '.');
                }
                if i - start == 1 && p@[start as int] == '.' {
                    assert(seg =~= seq!['.']);
                }
                if i - start == 2 && p@[start as int] == '.' && p@[start + 1] == '.' {
                    assert(seg =~= seq!['.', '.']);
                }
            }
            if bad {
                return None;
            }
            assert forall|a: int, b: int| #[trigger]
                is_segment(p@, a, b) && b < i + 1 implies safe_segment(p@.subrange(a, b)) by {
                if b >= start {
                    if a > start {
                        assert(p@[a - 1] == '/');
                    }
                    if a < start {
                        assert(p@[start - 1] == '/');
                    }
                    if b < i {
                        assert(p@[b] == '/');
                    }
                }
            }
            if i == p.len() {
                return Some(key);
            }
            start = i + 1;
        }
        i += 1;
    }
}

/// The media type of an HTML page.
pub const HTML_TYPE: &'static str = "text/html; charset=utf-8";

/// The media type of a file extension in small letters.
pub open spec fn type_of_extension(ext: Seq<char>) -> Seq<char> {
    if ext == "html"@ || ext == "htm"@ {
        HTML_TYPE@
    } else if ext == "js"@ || ext == "mjs"@ {
        "text/javascript; charset=utf-8"@
    } else if ext == "css"@ {
        "text/css; charset=utf-8"@
    } else if ext == "json"@ {
        "application/json; charset=utf-8"@
    } else if ext == "wasm"@ {
        "application/wasm"@
    } else if ext == "svg"@ {
        "image/svg+xml"@
    } else if ext == "png"@ {
        "image/png"@
    } else if ext == "jpg"@ || ext == "jpeg"@ {
        "image/jpeg"@
    } else if ext == "webp"@ {
        "image/webp"@
    } else if ext == "gif"@ {
        "image/gif"@
    } else if ext == "ico"@ {
        "image/x-icon"@
    } else if ext == "woff2"@ {
        "font/woff2"@
    } else if ext == "woff"@ {
        "font/woff"@
    } else if ext == "txt"@ || ext == "wgsl"@ {
        "text/plain; charset=utf-8"@
    } else {
        "application/octet-stream"@
    }
}

/// The media type of a path: that of what stands behind its last dot, capitals made small.
pub open spec fn media_type(path: Seq<char>) -> Seq<char> {
    type_of_extension(crate::text::lower(crate::text::after_last(path, '.')))
}

/// The media type of a path, by its extension.
pub fn mime_for(path: &str) -> (r: &'static str)
    ensures
        r@ == media_type(path@),
{
    let tail = tail_behind(path, '.');
    let ext = to_lower(tail.as_str());
    let e = ext.as_str();
    if same_text(e, "html") || same_text(e, "htm") {
        HTML_TYPE
    } else if same_text(e, "js") || same_text(e, "mjs") {
        "text/javascript; charset=utf-8"
    } else if same_text(e, "css") {
        "text/css; charset=utf-8"
    } else if same_text(e, "json") {
        "application/json; charset=utf-8"
    } else if same_text(e, "wasm") {
        "application/wasm"
    } else if same_text(e, "svg") {
        "image/svg+xml"
    } else if same_text(e, "png") {
        "image/png"
    } else if same_text(e, "jpg") || same_text(e, "jpeg") {
        "image/jpeg"
    } else if same_text(e, "webp") {
        "image/webp"
    } else if same_text(e, "gif") {
        "image/gif"
    } else if same_text(e, "ico") {
        "image/x-icon"
    } else if same_text(e, "woff2") {
        "font/woff2"
    } else if same_text(e, "woff") {
        "font/woff"
    } else if same_text(e, "txt") || same_text(e, "wgsl") {
        "text/plain; charset=utf-8"
    } else {
        "application/octet-stream"
    }
}

/// The extensions of the files that a bundler names by their content.
pub open spec fn is_asset_extension(ext: Seq<char>) -> bool {
    ||| ext == "js"@
    ||| ext == "css"@
    ||| ext == "wasm"@
    ||| ext == "woff"@
    ||| ext == "woff2"@
    ||| ext == "ttf"@
    ||| ext == "otf"@
    ||| ext == "png"@
    ||| ext == "jpg"@
    ||| ext == "jpeg"@
    ||| ext == "gif"@
    ||| ext == "svg"@
    ||| ext == "webp"@
    ||| ext == "avif"@
    ||| ext == "ico"@
    ||| ext == "map"@
}

fn asset_extension(ext: &str) -> (r: bool)
    ensures
        r == is_asset_extension(ext@),
{
    same_text(ext, "js")
        || same_text(ext, "css")
        || same_text(ext, "wasm")
        || same_text(ext, "woff")
        || same_text(ext, "woff2")
        || same_text(ext, "ttf")
        || same_text(ext, "otf")
        || same_text(ext, "png")
        || same_text(ext, "jpg")
        || same_text(ext, "jpeg")
        || same_text(ext, "gif")
        || same_text(ext, "svg")
        || same_text(ext, "webp")
        || same_text(ext, "avif")
        || same_text(ext, "ico")
        || same_text(ext, "map")
}

/// A letter, a digit, `_` or `-`: the URL-safe base64 alphabet.
pub open spec fn is_url_safe(c: char) -> bool {
    'a' <= c <= 'z' || 'A' <= c <= 'Z' || '0' <= c <= '9' || c == '_' || c == '-'
}

/// `stem` ends in a dash at `d` and a content hash behind it: at least eight characters, all
/// URL-safe. A hash of eight may itself hold dashes, as in `app-DCKp3R-I`; a longer one stands
/// behind the last dash, so that `apple-touch-icon` is a name and no hash.
pub open spec fn hash_behind(stem: Seq<char>, d: int) -> bool {
    &&& 0 <= d && d + 9 <= stem.len()
    &&& stem[d] == '-'
    &&& forall|k: int| d < k < stem.len() ==> is_url_safe(#[trigger] stem[k])
    &&& d + 9 == stem.len() || forall|k: int| d < k < stem.len() ==> #[trigger] stem[k] != '-'
}

/// `stem` ends in a dash and a content hash.
pub open spec fn carries_hash(stem: Seq<char>) -> bool {
    exists|d: int| hash_behind(stem, d)
}

/// A file whose name carries a hash of its content: behind the last slash a stem that ends in a
/// content hash, the last dot, and an asset's extension.
pub open spec fn is_hashed_asset(path: Seq<char>) -> bool {
    let name = crate::text::after_last(path, '/');
    match name.index_of_last('.') {
        Some(dot) => is_asset_extension(name.skip(dot + 1)) && carries_hash(name.take(dot)),
        None => false,
    }
}

fn ends_in_hash(v: &Vec<char>, end: usize) -> (r: bool)
    requires
        end <= v@.len(),
    ensures
        r == carries_hash(v@.take(end as int)),
{
    let ghost stem = v@.take(end as int);
    let mut i: usize = end;
    let mut dashed = false;
    while i > 0
        invariant
            i <= end <= v@.len(),
            stem == v@.take(end as int),
            dashed == exists|k: int| i <= k < end && #[trigger] stem[k] == '-',
            forall|k: int| i <= k < end ==> is_url_safe(#[trigger] stem[k]),
            forall|d: int| i <= d ==> !hash_behind(stem, d),
        decreases i,
    {
        let c = v[i - 1];
        assert(stem[i - 1] == c);
        if c == '-' && (end - (i - 1) == 9 || (end - (i - 1) > 9 && !dashed)) {
            assert(hash_behind(stem, i - 1));
            return true;
        }
        assert(!hash_behind(stem, i - 1));
        let safe = ('a' <= c && c <= 'z') || ('A' <= c && c <= 'Z') || ('0' <= c && c <= '9') || c
            == '_' || c == '-';
        if !safe {
            assert forall|d: int| !hash_behind(stem, d) by {
                if d < i - 1 && hash_behind(stem, d) {
                    assert(is_url_safe(stem[i - 1]));
                }
            }
            return false;
        }
        dashed = dashed || c == '-';
        i -= 1;
    }
    assert forall|d: int| !hash_behind(stem, d) by {}
    false
}

/// Whether a path names a content-hashed asset. Its bytes never change under that name, so it can
/// be cached for good; a file with a stable name is not one.
pub fn is_immutable_asset(path: &str) -> (r: bool)
    ensures
        r == is_hashed_asset(path@),
{
    let name = tail_behind(path, '/');
    let v = chars_of(name.as_str());
    let n = v.len();
    match last_index(&v, '.') {
        Some(dot) => {
            let ext = text_of(&v, dot + 1, n);
            assert(ext@ == name@.skip(dot + 1));
            asset_extension(ext.as_str()) && ends_in_hash(&v, dot)
        },
        None => false,
    }
}

proof fn lemma_strip_front_first(s: Seq<char>, set: CharSet)
    ensures
        ({
            let t = crate::text::strip_front(s, set);
            t.len() == 0 || !set.has(t[0])
        }),
    decreases s.len(),
{
    if s.len() > 0 && set.has(s[0]) {
        lemma_strip_front_first(s.drop_first(), set);
    }
}

/// A storage key is safe and relative: no segment of it is empty, `.` or `..`, and it does not
/// begin with a slash.
pub proof fn law_key_stays_below_root(raw: Seq<char>, key: Seq<char>)
    requires
        storage_key(raw) == Some(key),
    ensures
        safe_key(key),
        key.len() > 0 ==> key[0] != '/',
        forall|i: int, j: int| #[trigger]
            is_segment(key, i, j) && key.len() > 0 ==> key.subrange(i, j).len() > 0 && key.subrange(
                i,
                j,
            ) != seq!['.'] && key.subrange(i, j) != seq!['.', '.'],
{
    lemma_strip_front_first(raw, CharSet::Only('/'));
}

/// A key is its own key: normalising twice changes nothing.
pub proof fn law_key_is_normal(raw: Seq<char>, key: Seq<char>)
    requires
        storage_key(raw) == Some(key),
    ensures
        storage_key(key) == Some(key),
{
    law_key_stays_below_root(raw, key);
}

/// Every safe key is requested as a slash and the key.
pub proof fn law_key_is_reachable(key: Seq<char>)
    requires
        safe_key(key),
    ensures
        storage_key(seq!['/'] + key) == Some(key),
{
    let raw = seq!['/'] + key;
    assert(raw.drop_first() == key);
    if key.len() > 0 && key[0] == '/' {
        assert(is_segment(key, 0, 0));
        assert(key.subrange(0, 0).len() == 0);
    }
    assert(crate::text::strip_front(key, CharSet::Only('/')) == key);
}

/// How many slashes lead a path makes no difference.
pub proof fn law_leading_slash_is_ignored(raw: Seq<char>)
    ensures
        storage_key(seq!['/'] + raw) == storage_key(raw),
{
    assert((seq!['/'] + raw).drop_first() == raw);
}

/// Whether a file is a hashed asset depends on its name alone: the directories before it make no
/// difference.
pub proof fn law_directories_do_not_matter(dir: Seq<char>, name: Seq<char>)
    ensures
        is_hashed_asset(dir + seq!['/'] + name) == is_hashed_asset(name),
{
    let full = dir + seq!['/'] + name;
    let shift = dir.len() + 1;
    name.index_of_last_ensures('/');
    full.index_of_last_ensures('/');
    assert(full[dir.len() as int] == '/');
    match (name.index_of_last('/'), full.index_of_last('/')) {
        (Some(i), Some(j)) => {
            assert(full[shift + i] == name[i]);
            assert(j >= shift + i);
            assert(name[j - shift] == full[j]);
            assert(full.skip(j + 1) =~= name.skip(i + 1));
        },
        (None, Some(j)) => {
            if j >= shift {
                assert(name[j - shift] == full[j]);
            }
            assert(full.skip(j + 1) =~= name);
        },
        _ => {},
    }
}

} // verus!
