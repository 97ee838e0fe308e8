//! Laws of paths: which become keys, what type they have, which names carry a hash.
use vstd::prelude::*;
use crate::text::CharSet;

verus! {

broadcast use vstd::string::group_string_axioms;

/// A segment of `key` ends before `j`.
pub open spec fn ends_at(key: Seq<char>, j: int) -> bool {
    j == key.len() || (0 <= j < key.len() && key[j] == '/')
}

/// A segment of `key` begins at `i` and is empty, `.` or `..`.
pub open spec fn stumbles_at(key: Seq<char>, i: int) -> bool {
    &&& 0 <= i <= key.len()
    &&& i == 0 || key[i - 1] == '/'
    &&& ends_at(key, i) || (i < key.len() && key[i] == '.' && (ends_at(key, i + 1) || (i + 1
        < key.len() && key[i + 1] == '.' && ends_at(key, i + 2))))
}

/// A path is its leading slashes and what is behind them. That is its key, all of it, if no segment
/// of it is empty, `.` or `..`; else the path is refused. A path of slashes alone has the empty key.
pub proof fn law_path_is_its_key(slashes: nat, key: Seq<char>)
    requires
        key.len() > 0 ==> key[0] != '/',
    ensures
        key.len() == 0 ==> crate::path::storage_key(Seq::new(slashes, |i: int| '/') + key) == Some(
            key,
        ),
        key.len() > 0 && (forall|i: int| !stumbles_at(key, i)) ==> crate::path::storage_key(
            Seq::new(slashes, |i: int| '/') + key,
        ) == Some(key),
        key.len() > 0 && (exists|i: int| stumbles_at(key, i)) ==> crate::path::storage_key(
            Seq::new(slashes, |i: int| '/') + key,
        ) is None,
{
    let front = Seq::new(slashes, |i: int| '/');
    crate::laws::texts::lemma_strip_front_run(front, key, CharSet::Only('/'));
    if key.len() > 0 {
        if exists|i: int| stumbles_at(key, i) {
            let i = choose|i: int| stumbles_at(key, i);
            if ends_at(key, i) {
                assert(crate::path::is_segment(key, i, i));
                assert(key.subrange(i, i).len() == 0);
            } else if ends_at(key, i + 1) {
                assert(crate::path::is_segment(key, i, i + 1));
                assert(key.subrange(i, i + 1) =~= seq!['.']);
            } else {
                assert(crate::path::is_segment(key, i, i + 2));
                assert(key.subrange(i, i + 2) =~= seq!['.', '.']);
            }
        } else {
            assert forall|i: int, j: int| #[trigger]
                crate::path::is_segment(key, i, j) implies crate::path::safe_segment(
                key.subrange(i, j),
            ) by {
                let seg = key.subrange(i, j);
                assert(!stumbles_at(key, i));
                if seg == seq!['.'] {
                    assert(seg.len() == 1 && seg[0] == '.');
                    assert(ends_at(key, i + 1));
                }
                if seg == seq!['.', '.'] {
                    assert(seg.len() == 2 && seg[0] == '.' && seg[1] == '.');
                    assert(key[i + 1] == '.');
                    assert(ends_at(key, i + 2));
                }
            }
        }
    }
}

/// The media type of a path is that of what stands behind its last dot, whatever stands before,
/// and capitals in it make no difference.
pub proof fn law_type_is_by_extension(stem: Seq<char>, ext: Seq<char>, other: Seq<char>)
    requires
        !ext.contains('.'),
        !other.contains('.'),
        crate::text::lower(ext) == crate::text::lower(other),
    ensures
        crate::path::media_type(stem + seq!['.'] + ext) == crate::path::media_type(ext),
        crate::path::media_type(ext) == crate::path::media_type(other),
{
    crate::laws::texts::law_after_last(stem, ext, '.');
    crate::laws::texts::law_after_last(stem, other, '.');
}

/// The media type of each extension. One that is not named here is served as plain bytes.
pub proof fn law_types(ext: Seq<char>, low: Seq<char>, typ: Seq<char>)
    requires
        !ext.contains('.'),
        low == crate::text::lower(ext),
        typ == crate::path::media_type(ext),
    ensures
        low == "html"@ ==> typ == "text/html; charset=utf-8"@,
        low == "htm"@ ==> typ == "text/html; charset=utf-8"@,
        low == "js"@ ==> typ == "text/javascript; charset=utf-8"@,
        low == "mjs"@ ==> typ == "text/javascript; charset=utf-8"@,
        low == "css"@ ==> typ == "text/css; charset=utf-8"@,
        low == "json"@ ==> typ == "application/json; charset=utf-8"@,
        low == "wasm"@ ==> typ == "application/wasm"@,
        low == "svg"@ ==> typ == "image/svg+xml"@,
        low == "png"@ ==> typ == "image/png"@,
        low == "jpg"@ ==> typ == "image/jpeg"@,
        low == "jpeg"@ ==> typ == "image/jpeg"@,
        low == "webp"@ ==> typ == "image/webp"@,
        low == "gif"@ ==> typ == "image/gif"@,
        low == "ico"@ ==> typ == "image/x-icon"@,
        low == "woff2"@ ==> typ == "font/woff2"@,
        low == "woff"@ ==> typ == "font/woff"@,
        low == "txt"@ ==> typ == "text/plain; charset=utf-8"@,
        low == "wgsl"@ ==> typ == "text/plain; charset=utf-8"@,
        low != "html"@ && low != "htm"@ && low != "js"@ && low != "mjs"@ && low != "css"@ && low != "json"@ && low != "wasm"@ && low != "svg"@ && low != "png"@ && low != "jpg"@ && low != "jpeg"@ && low != "webp"@ && low != "gif"@ && low != "ico"@ && low != "woff2"@ && low != "woff"@ && low != "txt"@ && low != "wgsl"@ ==> typ
            == "application/octet-stream"@,
{
    crate::laws::texts::law_after_last(ext, ext, '.');
    lemma_extensions_differ();
}

/// No two of the extensions are the same text.
proof fn lemma_extensions_differ()
    ensures
        "html"@.len() == 4,
        "htm"@.len() == 3,
        "js"@.len() == 2,
        "mjs"@.len() == 3,
        "css"@.len() == 3,
        "json"@.len() == 4,
        "wasm"@.len() == 4,
        "svg"@.len() == 3,
        "png"@.len() == 3,
        "jpg"@.len() == 3,
        "jpeg"@.len() == 4,
        "webp"@.len() == 4,
        "gif"@.len() == 3,
        "ico"@.len() == 3,
        "woff2"@.len() == 5,
        "woff"@.len() == 4,
        "txt"@.len() == 3,
        "wgsl"@.len() == 4,
        "html"@ != "json"@,
        "html"@ != "wasm"@,
        "html"@ != "jpeg"@,
        "html"@ != "webp"@,
        "html"@ != "woff"@,
        "html"@ != "wgsl"@,
        "htm"@ != "mjs"@,
        "htm"@ != "css"@,
        "htm"@ != "svg"@,
        "htm"@ != "png"@,
        "htm"@ != "jpg"@,
        "htm"@ != "gif"@,
        "htm"@ != "ico"@,
        "htm"@ != "txt"@,
        "mjs"@ != "css"@,
        "mjs"@ != "svg"@,
        "mjs"@ != "png"@,
        "mjs"@ != "jpg"@,
        "mjs"@ != "gif"@,
        "mjs"@ != "ico"@,
        "mjs"@ != "txt"@,
        "css"@ != "svg"@,
        "css"@ != "png"@,
        "css"@ != "jpg"@,
        "css"@ != "gif"@,
        "css"@ != "ico"@,
        "css"@ != "txt"@,
        "json"@ != "wasm"@,
        "json"@ != "jpeg"@,
        "json"@ != "webp"@,
        "json"@ != "woff"@,
        "json"@ != "wgsl"@,
        "wasm"@ != "jpeg"@,
        "wasm"@ != "webp"@,
        "wasm"@ != "woff"@,
        "wasm"@ != "wgsl"@,
        "svg"@ != "png"@,
        "svg"@ != "jpg"@,
        "svg"@ != "gif"@,
        "svg"@ != "ico"@,
        "svg"@ != "txt"@,
        "png"@ != "jpg"@,
        "png"@ != "gif"@,
        "png"@ != "ico"@,
        "png"@ != "txt"@,
        "jpg"@ != "gif"@,
        "jpg"@ != "ico"@,
        "jpg"@ != "txt"@,
        "jpeg"@ != "webp"@,
        "jpeg"@ != "woff"@,
        "jpeg"@ != "wgsl"@,
        "webp"@ != "woff"@,
        "webp"@ != "wgsl"@,
        "gif"@ != "ico"@,
        "gif"@ != "txt"@,
        "ico"@ != "txt"@,
        "woff"@ != "wgsl"@,
{
    reveal_strlit("html");
    reveal_strlit("htm");
    reveal_strlit("js");
    reveal_strlit("mjs");
    reveal_strlit("css");
    reveal_strlit("json");
    reveal_strlit("wasm");
    reveal_strlit("svg");
    reveal_strlit("png");
    reveal_strlit("jpg");
    reveal_strlit("jpeg");
    reveal_strlit("webp");
    reveal_strlit("gif");
    reveal_strlit("ico");
    reveal_strlit("woff2");
    reveal_strlit("woff");
    reveal_strlit("txt");
    reveal_strlit("wgsl");
    assert("html"@[0] != "json"@[0]);
    assert("html"@[0] != "wasm"@[0]);
    assert("html"@[0] != "jpeg"@[0]);
    assert("html"@[0] != "webp"@[0]);
    assert("html"@[0] != "woff"@[0]);
    assert("html"@[0] != "wgsl"@[0]);
    assert("htm"@[0] != "mjs"@[0]);
    assert("htm"@[0] != "css"@[0]);
    assert("htm"@[0] != "svg"@[0]);
    assert("htm"@[0] != "png"@[0]);
    assert("htm"@[0] != "jpg"@[0]);
    assert("htm"@[0] != "gif"@[0]);
    assert("htm"@[0] != "ico"@[0]);
    assert("htm"@[0] != "txt"@[0]);
    assert("mjs"@[0] != "css"@[0]);
    assert("mjs"@[0] != "svg"@[0]);
    assert("mjs"@[0] != "png"@[0]);
    assert("mjs"@[0] != "jpg"@[0]);
    assert("mjs"@[0] != "gif"@[0]);
    assert("mjs"@[0] != "ico"@[0]);
    assert("mjs"@[0] != "txt"@[0]);
    assert("css"@[0] != "svg"@[0]);
    assert("css"@[0] != "png"@[0]);
    assert("css"@[0] != "jpg"@[0]);
    assert("css"@[0] != "gif"@[0]);
    assert("css"@[0] != "ico"@[0]);
    assert("css"@[0] != "txt"@[0]);
    assert("json"@[0] != "wasm"@[0]);
    assert("json"@[1] != "jpeg"@[1]);
    assert("json"@[0] != "webp"@[0]);
    assert("json"@[0] != "woff"@[0]);
    assert("json"@[0] != "wgsl"@[0]);
    assert("wasm"@[0] != "jpeg"@[0]);
    assert("wasm"@[1] != "webp"@[1]);
    assert("wasm"@[1] != "woff"@[1]);
    assert("wasm"@[1] != "wgsl"@[1]);
    assert("svg"@[0] != "png"@[0]);
    assert("svg"@[0] != "jpg"@[0]);
    assert("svg"@[0] != "gif"@[0]);
    assert("svg"@[0] != "ico"@[0]);
    assert("svg"@[0] != "txt"@[0]);
    assert("png"@[0] != "jpg"@[0]);
    assert("png"@[0] != "gif"@[0]);
    assert("png"@[0] != "ico"@[0]);
    assert("png"@[0] != "txt"@[0]);
    assert("jpg"@[0] != "gif"@[0]);
    assert("jpg"@[0] != "ico"@[0]);
    assert("jpg"@[0] != "txt"@[0]);
    assert("jpeg"@[0] != "webp"@[0]);
    assert("jpeg"@[0] != "woff"@[0]);
    assert("jpeg"@[0] != "wgsl"@[0]);
    assert("webp"@[1] != "woff"@[1]);
    assert("webp"@[1] != "wgsl"@[1]);
    assert("gif"@[0] != "ico"@[0]);
    assert("gif"@[0] != "txt"@[0]);
    assert("ico"@[0] != "txt"@[0]);
    assert("woff"@[1] != "wgsl"@[1]);
}

/// The extensions whose files may be named by their content.
pub open spec fn hashable(ext: Seq<char>) -> bool {
    ||| ext == "js"@
    ||| ext == "css"@
    ||| ext == "wasm"@
    ||| ext == "woff"@
    ||| ext == "woff2"@
    ||| ext == "ttf"@
    ||| ext == "otf"@
    ||| ext == "png"@
    ||| ext == "jpg"@
    ||| ext == "jpeg"@
    ||| ext == "gif"@
    ||| ext == "svg"@
    ||| ext == "webp"@
    ||| ext == "avif"@
    ||| ext == "ico"@
    ||| ext == "map"@
}

/// A content hash: eight letters, digits, underscores and dashes, or more of these without a dash.
pub open spec fn hash_like(hash: Seq<char>) -> bool {
    &&& hash.len() >= 8
    &&& forall|k: int|
        0 <= k < hash.len() ==> ('a' <= #[trigger] hash[k] <= 'z' || 'A' <= hash[k] <= 'Z' || '0'
            <= hash[k] <= '9' || hash[k] == '_' || (hash[k] == '-' && hash.len() == 8))
}

proof fn lemma_hashable_is_plain(ext: Seq<char>)
    requires
        hashable(ext),
    ensures
        !ext.contains('.'),
        !ext.contains('/'),
{
    reveal_strlit("js");
    reveal_strlit("css");
    reveal_strlit("wasm");
    reveal_strlit("woff");
    reveal_strlit("woff2");
    reveal_strlit("ttf");
    reveal_strlit("otf");
    reveal_strlit("png");
    reveal_strlit("jpg");
    reveal_strlit("jpeg");
    reveal_strlit("gif");
    reveal_strlit("svg");
    reveal_strlit("webp");
    reveal_strlit("avif");
    reveal_strlit("ico");
    reveal_strlit("map");
}

/// Whatever stands before, a name that ends in a dash, a content hash, a dot and one of these
/// extensions carries a hash.
pub proof fn law_hashed_names_are_known(stem: Seq<char>, hash: Seq<char>, ext: Seq<char>)
    requires
        hash_like(hash),
        hashable(ext),
    ensures
        crate::path::is_hashed_asset(stem + seq!['-'] + hash + seq!['.'] + ext),
{
    lemma_hashable_is_plain(ext);
    let path = stem + seq!['-'] + hash + seq!['.'] + ext;
    let tail = seq!['-'] + hash + seq!['.'] + ext;
    let cut = match stem.index_of_last('/') {
        Some(i) => i + 1,
        None => 0,
    };
    stem.index_of_last_ensures('/');
    let own = stem.skip(cut);
    let name = own + seq!['-'] + hash + seq!['.'] + ext;
    assert(!name.contains('/')) by {
        if name.contains('/') {
            let k = choose|k: int| 0 <= k < name.len() && name[k] == '/';
            let o = own.len() as int;
            if k < o {
                assert(own[k] == stem[cut + k]);
            } else if o < k < o + 1 + hash.len() {
                assert(name[k] == hash[k - o - 1]);
            } else if k > o + 1 + hash.len() {
                assert(name[k] == ext[k - o - 2 - hash.len()]);
            }
        }
    }
    if cut > 0 {
        let dir = stem.take(cut - 1);
        assert(path =~= dir + seq!['/'] + name);
        crate::laws::texts::law_after_last(dir, name, '/');
    } else {
        assert(path =~= name);
        crate::laws::texts::law_after_last(name, name, '/');
    }
    let dot: int = own.len() + 1 + hash.len() as int;
    name.index_of_last_ensures('.');
    assert(name[dot] == '.');
    if let Some(i) = name.index_of_last('.') {
        if i > dot {
            assert(ext[i - dot - 1] == name[i]);
        }
    }
    assert(name.skip(dot + 1) =~= ext);
    let front = name.take(dot);
    assert forall|k: int| own.len() < k < front.len() implies crate::path::is_url_safe(
        #[trigger] front[k],
    ) by {
        assert(front[k] == hash[k - own.len() - 1]);
    }
    assert forall|k: int| own.len() < k < front.len() && hash.len() > 8 implies #[trigger] front[k]
        != '-' by {
        assert(front[k] == hash[k - own.len() - 1]);
    }
    assert(crate::path::hash_behind(front, own.len() as int));
}

/// Nothing else carries a hash: a path that does ends in a dash, a content hash, a dot and one of
/// these extensions.
pub proof fn law_hashed_names_are_such(path: Seq<char>)
    requires
        crate::path::is_hashed_asset(path),
    ensures
        exists|stem: Seq<char>, hash: Seq<char>, ext: Seq<char>|
            #![trigger hash_like(hash), hashable(ext), stem.len()]
            hash_like(hash) && hashable(ext) && path == stem + seq!['-'] + hash + seq!['.'] + ext,
{
    path.index_of_last_ensures('/');
    let cut = match path.index_of_last('/') {
        Some(i) => i + 1,
        None => 0,
    };
    let name = crate::text::after_last(path, '/');
    assert(name =~= path.skip(cut));
    name.index_of_last_ensures('.');
    let dot = name.index_of_last('.')->0;
    let front = name.take(dot);
    let d = choose|d: int| crate::path::hash_behind(front, d);
    let stem = path.take(cut) + name.take(d);
    let hash = name.subrange(d + 1, dot);
    let ext = name.skip(dot + 1);
    assert forall|k: int| 0 <= k < hash.len() implies ('a' <= #[trigger] hash[k] <= 'z' || 'A'
        <= hash[k] <= 'Z' || '0' <= hash[k] <= '9' || hash[k] == '_' || (hash[k] == '-'
        && hash.len() == 8)) by {
        assert(hash[k] == front[d + 1 + k]);
        assert(crate::path::is_url_safe(front[d + 1 + k]));
    }
    assert(hash_like(hash));
    assert(hashable(ext));
    assert(path =~= stem + seq!['-'] + hash + seq!['.'] + ext);
    assert(stem.len() >= 0);
}

} // verus!
