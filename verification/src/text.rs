//! Text as a sequence of characters: the few string operations the edge is built from.
use vstd::prelude::*;
use vstd::string::StringExecFns;

verus! {

/// `String::push` appends the one character it is given.
pub assume_specification[ String::push ](s: &mut String, c: char)
    ensures
        final(s)@ == old(s)@.push(c),
;

/// The set of characters that a strip takes off.
#[derive(Clone, Copy)]
pub enum CharSet {
    /// Unicode's `White_Space` property.
    White,
    /// One character.
    Only(char),
}

/// The 25 code points with Unicode's `White_Space` property.
pub open spec fn is_white(c: char) -> bool {
    ||| '\u{9}' <= c <= '\u{d}'
    ||| c == ' '
    ||| c == '\u{85}'
    ||| c == '\u{a0}'
    ||| c == '\u{1680}'
    ||| '\u{2000}' <= c <= '\u{200a}'
    ||| c == '\u{2028}'
    ||| c == '\u{2029}'
    ||| c == '\u{202f}'
    ||| c == '\u{205f}'
    ||| c == '\u{3000}'
}

impl CharSet {
    pub open spec fn has(self, c: char) -> bool {
        match self {
            CharSet::White => is_white(c),
            CharSet::Only(one) => c == one,
        }
    }

    pub fn holds(&self, c: char) -> (r: bool)
        ensures
            r == self.has(c),
    {
        match self {
            CharSet::White => ('\u{9}' <= c && c <= '\u{d}') || c == ' ' || c == '\u{85}'
                || c == '\u{a0}' || c == '\u{1680}' || ('\u{2000}' <= c && c <= '\u{200a}') || c
                == '\u{2028}' || c == '\u{2029}' || c == '\u{202f}' || c == '\u{205f}' || c
                == '\u{3000}',
            CharSet::Only(one) => c == *one,
        }
    }
}

/// `s` without its longest prefix of characters in `set`.
pub open spec fn strip_front(s: Seq<char>, set: CharSet) -> Seq<char>
    decreases s.len(),
{
    if s.len() > 0 && set.has(s[0]) {
        strip_front(s.drop_first(), set)
    } else {
        s
    }
}

/// `s` without its longest suffix of characters in `set`.
pub open spec fn strip_back(s: Seq<char>, set: CharSet) -> Seq<char>
    decreases s.len(),
{
    if s.len() > 0 && set.has(s.last()) {
        strip_back(s.drop_last(), set)
    } else {
        s
    }
}

/// `s` stripped of the characters in `set` at both ends.
pub open spec fn strip(s: Seq<char>, set: CharSet) -> Seq<char> {
    strip_back(strip_front(s, set), set)
}

/// The characters of a string.
pub fn chars_of(s: &str) -> (r: Vec<char>)
    ensures
        r@ == s@,
{
    let mut v: Vec<char> = Vec::new();
    for c in it: s.chars()
        invariant
            it.seq() == s@,
            v@ == it.seq().take(it.index()),
    {
        v.push(c);
    }
    assert(s@.take(s@.len() as int) == s@);
    v
}

/// The string made of the characters `v[from..to]`.
pub fn text_of(v: &Vec<char>, from: usize, to: usize) -> (r: String)
    requires
        from <= to <= v@.len(),
    ensures
        r@ == v@.subrange(from as int, to as int),
{
    let mut out = String::new();
    let mut i: usize = from;
    while i < to
        invariant
            from <= i <= to <= v@.len(),
            out@ == v@.subrange(from as int, i as int),
        decreases to - i,
    {
        out.push(v[i]);
        i += 1;
    }
    out
}

/// Whether two strings are the same text.
pub fn same_text(a: &str, b: &str) -> (r: bool)
    ensures
        r == (a@ == b@),
{
    a.to_owned() == b.to_owned()
}

/// An ASCII capital as its small letter, any other character as it is.
pub open spec fn lower_char(c: char) -> char {
    if 'A' <= c <= 'Z' {
        (c as u8 + 32) as char
    } else {
        c
    }
}

/// `s` with its ASCII capitals made small.
pub open spec fn lower(s: Seq<char>) -> Seq<char> {
    Seq::new(s.len(), |i: int| lower_char(s[i]))
}

/// `s` with its ASCII capitals made small.
pub fn to_lower(s: &str) -> (r: String)
    ensures
        r@ == lower(s@),
{
    let v = chars_of(s);
    let mut out = String::new();
    let mut i: usize = 0;
    while i < v.len()
        invariant
            i <= v@.len(),
            out@ == lower(v@.take(i as int)),
        decreases v@.len() - i,
    {
        let c = v[i];
        let d: char = if 'A' <= c && c <= 'Z' {
            (c as u8 + 32) as char
        } else {
            c
        };
        out.push(d);
        i += 1;
    }
    assert(v@.take(v@.len() as int) == v@);
    out
}

/// How many characters at the front of `v[from..to]` are in `set`, as the index behind them.
fn front_end(v: &Vec<char>, from: usize, to: usize, set: CharSet) -> (r: usize)
    requires
        from <= to <= v@.len(),
    ensures
        from <= r <= to,
        v@.subrange(r as int, to as int) == strip_front(v@.subrange(from as int, to as int), set),
{
    let mut i: usize = from;
    while i < to && set.holds(v[i])
        invariant
            from <= i <= to <= v@.len(),
            strip_front(v@.subrange(from as int, to as int), set) == strip_front(
                v@.subrange(i as int, to as int),
                set,
            ),
        decreases to - i,
    {
        assert(v@.subrange(i as int, to as int).drop_first() == v@.subrange(i + 1, to as int));
        i += 1;
    }
    i
}

/// The index at which the characters in `set` at the back of `v[from..to]` begin.
fn back_start(v: &Vec<char>, from: usize, to: usize, set: CharSet) -> (r: usize)
    requires
        from <= to <= v@.len(),
    ensures
        from <= r <= to,
        v@.subrange(from as int, r as int) == strip_back(v@.subrange(from as int, to as int), set),
{
    let mut j: usize = to;
    while from < j && set.holds(v[j - 1])
        invariant
            from <= j <= to <= v@.len(),
            strip_back(v@.subrange(from as int, to as int), set) == strip_back(
                v@.subrange(from as int, j as int),
                set,
            ),
        decreases j,
    {
        assert(v@.subrange(from as int, j as int).drop_last() == v@.subrange(from as int, j - 1));
        j -= 1;
    }
    j
}

/// `s` stripped of the characters in `set` at both ends.
pub fn stripped(s: &str, set: CharSet) -> (r: String)
    ensures
        r@ == strip(s@, set),
{
    let v = chars_of(s);
    assert(v@ == v@.subrange(0, v@.len() as int));
    let i = front_end(&v, 0, v.len(), set);
    let j = back_start(&v, i, v.len(), set);
    text_of(&v, i, j)
}

/// `s` without its leading characters in `set`.
pub fn stripped_front(s: &str, set: CharSet) -> (r: String)
    ensures
        r@ == strip_front(s@, set),
{
    let v = chars_of(s);
    assert(v@ == v@.subrange(0, v@.len() as int));
    let i = front_end(&v, 0, v.len(), set);
    text_of(&v, i, v.len())
}

/// What stands before the first `c` in `s`: all of `s` where there is none.
pub open spec fn before_first(s: Seq<char>, c: char) -> Seq<char> {
    match s.index_of_first(c) {
        Some(i) => s.take(i),
        None => s,
    }
}

/// What stands behind the last `c` in `s`: all of `s` where there is none.
pub open spec fn after_last(s: Seq<char>, c: char) -> Seq<char> {
    match s.index_of_last(c) {
        Some(i) => s.skip(i + 1),
        None => s,
    }
}

/// The index of the first `c` in `v`.
pub fn first_index(v: &Vec<char>, c: char) -> (r: Option<usize>)
    ensures
        match r {
            Some(i) => v@.index_of_first(c) == Some(i as int) && i < v@.len(),
            None => v@.index_of_first(c) is None,
        },
{
    let mut i: usize = 0;
    while i < v.len()
        invariant
            i <= v@.len(),
            forall|j: int| 0 <= j < i ==> v@[j] != c,
        decreases v@.len() - i,
    {
        if v[i] == c {
            proof {
                v@.index_of_first_ensures(c);
            }
            return Some(i);
        }
        i += 1;
    }
    proof {
        v@.index_of_first_ensures(c);
    }
    None
}

/// The index of the last `c` in `v`.
pub fn last_index(v: &Vec<char>, c: char) -> (r: Option<usize>)
    ensures
        match r {
            Some(i) => v@.index_of_last(c) == Some(i as int) && i < v@.len(),
            None => v@.index_of_last(c) is None,
        },
{
    let mut i: usize = v.len();
    while i > 0
        invariant
            i <= v@.len(),
            forall|j: int| i <= j < v@.len() ==> v@[j] != c,
        decreases i,
    {
        i -= 1;
        if v[i] == c {
            proof {
                v@.index_of_last_ensures(c);
            }
            return Some(i);
        }
    }
    proof {
        v@.index_of_last_ensures(c);
    }
    None
}

/// What stands behind the last `c` in `s`.
pub fn tail_behind(s: &str, c: char) -> (r: String)
    ensures
        r@ == after_last(s@, c),
{
    let v = chars_of(s);
    let n = v.len();
    match last_index(&v, c) {
        Some(i) => text_of(&v, i + 1, n),
        None => s.to_owned(),
    }
}

/// Whether `s` begins with `prefix`.
pub fn begins_with(s: &str, prefix: &str) -> (r: bool)
    ensures
        r == prefix@.is_prefix_of(s@),
{
    let v = chars_of(s);
    let w = chars_of(prefix);
    if w.len() > v.len() {
        return false;
    }
    let mut i: usize = 0;
    while i < w.len()
        invariant
            i <= w@.len() <= v@.len(),
            v@ == s@,
            w@ == prefix@,
            forall|j: int| 0 <= j < i ==> v@[j] == w@[j],
        decreases w@.len() - i,
    {
        if v[i] != w[i] {
            assert(v@.subrange(0, w@.len() as int)[i as int] != w@[i as int]);
            return false;
        }
        i += 1;
    }
    assert(w@ == v@.subrange(0, w@.len() as int));
    true
}

/// An optional string as the text that it holds.
pub open spec fn text(s: Option<String>) -> Option<Seq<char>> {
    match s {
        Some(t) => Some(t@),
        None => None,
    }
}

/// An optional string slice as the text that it holds.
pub open spec fn text_ref(s: Option<&str>) -> Option<Seq<char>> {
    match s {
        Some(t) => Some(t@),
        None => None,
    }
}

/// `s` between double quotes.
pub open spec fn quoted(s: Seq<char>) -> Seq<char> {
    seq!['"'] + s + seq!['"']
}

/// `s` between double quotes.
pub fn quote(s: &str) -> (r: String)
    ensures
        r@ == quoted(s@),
{
    let mut out = String::new();
    out.push('"');
    out.append(s);
    out.push('"');
    assert(out@ =~= quoted(s@));
    out
}

/// Two strings, one behind the other.
pub fn joined(a: &str, b: &str) -> (r: String)
    ensures
        r@ == a@ + b@,
{
    let mut out = a.to_owned();
    out.append(b);
    out
}

} // verus!
