//! Laws of the string operations.
use vstd::prelude::*;
use crate::text::CharSet;

verus! {

broadcast use vstd::string::group_string_axioms;

/// Lowering makes each ASCII capital its small letter, and leaves every other character and the
/// length as they are.
pub proof fn law_lower(s: Seq<char>)
    ensures
        crate::text::lower(s).len() == s.len(),
        forall|i: int|
            0 <= i < s.len() && 'A' <= s[i] <= 'Z' ==> #[trigger] crate::text::lower(s)[i] as int
                == s[i] as int + 32,
        forall|i: int|
            0 <= i < s.len() && !('A' <= s[i] <= 'Z') ==> #[trigger] crate::text::lower(s)[i]
                == s[i],
{
}

/// White space is what Unicode calls so, by the numbers of the characters.
pub proof fn law_white(c: char)
    ensures
        crate::text::is_white(c) <==> ({
            let n: int = c as int;
            ||| 9 <= n <= 13
            ||| n == 32
            ||| n == 133
            ||| n == 160
            ||| n == 5760
            ||| 8192 <= n <= 8202
            ||| n == 8232
            ||| n == 8233
            ||| n == 8239
            ||| n == 8287
            ||| n == 12288
        }),
        CharSet::White.has(c) <==> crate::text::is_white(c),
        forall|one: char| #[trigger] CharSet::Only(one).has(c) <==> c == one,
{
}

/// A quoted text is the text with a double quote at either end.
pub proof fn law_quoted(s: Seq<char>)
    ensures
        crate::text::quoted(s).len() == s.len() + 2,
        crate::text::quoted(s).first() == '"' && crate::text::quoted(s).last() == '"',
        crate::text::quoted(s).drop_first().drop_last() == s,
{
    assert(crate::text::quoted(s).drop_first().drop_last() =~= s);
}

pub(crate) proof fn lemma_strip_front_run(a: Seq<char>, s: Seq<char>, set: CharSet)
    requires
        forall|i: int| 0 <= i < a.len() ==> set.has(#[trigger] a[i]),
        s.len() > 0 ==> !set.has(s[0]),
    ensures
        crate::text::strip_front(a + s, set) == s,
    decreases a.len(),
{
    if a.len() == 0 {
        assert(a + s =~= s);
    } else {
        assert((a + s)[0] == a[0]);
        assert((a + s).drop_first() =~= a.drop_first() + s);
        lemma_strip_front_run(a.drop_first(), s, set);
    }
}

pub(crate) proof fn lemma_strip_back_run(s: Seq<char>, b: Seq<char>, set: CharSet)
    requires
        forall|i: int| 0 <= i < b.len() ==> set.has(#[trigger] b[i]),
        s.len() > 0 ==> !set.has(s.last()),
    ensures
        crate::text::strip_back(s + b, set) == s,
    decreases b.len(),
{
    if b.len() == 0 {
        assert(s + b =~= s);
    } else {
        assert((s + b).last() == b.last());
        assert((s + b).drop_last() =~= s + b.drop_last());
        lemma_strip_back_run(s, b.drop_last(), set);
    }
}

pub(crate) proof fn lemma_strip_runs(a: Seq<char>, s: Seq<char>, b: Seq<char>, set: CharSet)
    requires
        forall|i: int| 0 <= i < a.len() ==> set.has(#[trigger] a[i]),
        forall|i: int| 0 <= i < b.len() ==> set.has(#[trigger] b[i]),
        s.len() > 0 ==> !set.has(s[0]) && !set.has(s.last()),
    ensures
        crate::text::strip(a + s + b, set) == s,
{
    assert(a + s + b =~= a + (s + b));
    if s.len() > 0 {
        assert((s + b)[0] == s[0]);
        lemma_strip_front_run(a, s + b, set);
        lemma_strip_back_run(s, b, set);
    } else {
        let all = a + s + b;
        let none = Seq::<char>::empty();
        assert forall|i: int| 0 <= i < all.len() implies set.has(#[trigger] all[i]) by {
            if i < a.len() {
                assert(all[i] == a[i]);
            } else {
                assert(all[i] == b[i - a.len()]);
            }
        }
        assert(all + none =~= all);
        lemma_strip_front_run(all, none, set);
        assert(none =~= s);
    }
}

/// Stripping white space takes the white space at both ends, all of it, and nothing else.
pub proof fn law_strip_white(a: Seq<char>, s: Seq<char>, b: Seq<char>)
    requires
        forall|i: int| 0 <= i < a.len() ==> crate::text::is_white(#[trigger] a[i]),
        forall|i: int| 0 <= i < b.len() ==> crate::text::is_white(#[trigger] b[i]),
        s.len() > 0 ==> !crate::text::is_white(s[0]) && !crate::text::is_white(s.last()),
    ensures
        crate::text::strip(a + s + b, CharSet::White) == s,
{
    lemma_strip_runs(a, s, b, CharSet::White);
}

/// Stripping one character takes its runs at both ends and nothing else; stripping it at the front
/// takes the run there alone.
pub proof fn law_strip_one(a: Seq<char>, s: Seq<char>, b: Seq<char>, c: char)
    requires
        forall|i: int| 0 <= i < a.len() ==> #[trigger] a[i] == c,
        forall|i: int| 0 <= i < b.len() ==> #[trigger] b[i] == c,
        s.len() > 0 ==> s[0] != c && s.last() != c,
    ensures
        crate::text::strip(a + s + b, CharSet::Only(c)) == s,
        s.len() > 0 ==> crate::text::strip_front(a + s + b, CharSet::Only(c)) == s + b,
{
    lemma_strip_runs(a, s, b, CharSet::Only(c));
    if s.len() > 0 {
        assert(a + s + b =~= a + (s + b));
        assert((s + b)[0] == s[0]);
        lemma_strip_front_run(a, s + b, CharSet::Only(c));
    }
}

/// What stands before the first of a character has none of it; where there is none, that is all.
pub proof fn law_before_first(a: Seq<char>, b: Seq<char>, c: char)
    requires
        !a.contains(c),
    ensures
        crate::text::before_first(a, c) == a,
        crate::text::before_first(a + seq![c] + b, c) == a,
{
    let s = a + seq![c] + b;
    a.index_of_first_ensures(c);
    s.index_of_first_ensures(c);
    assert(s[a.len() as int] == c);
    if let Some(i) = s.index_of_first(c) {
        if i < a.len() {
            assert(a[i] == s[i]);
        }
        assert(s.take(i) =~= a);
    }
}

/// What stands behind the last of a character has none of it; where there is none, that is all.
pub proof fn law_after_last(a: Seq<char>, b: Seq<char>, c: char)
    requires
        !b.contains(c),
    ensures
        crate::text::after_last(b, c) == b,
        crate::text::after_last(a + seq![c] + b, c) == b,
{
    let s = a + seq![c] + b;
    b.index_of_last_ensures(c);
    s.index_of_last_ensures(c);
    assert(s[a.len() as int] == c);
    if let Some(i) = s.index_of_last(c) {
        if i > a.len() {
            assert(b[i - a.len() - 1] == s[i]);
        }
        assert(s.skip(i + 1) =~= b);
    }
}

} // verus!
