//! Laws of publishing: the command line, the paths of a bundle, and the documents that go out.
use vstd::prelude::*;
use crate::publish::PlanView;

verus! {

broadcast use vstd::string::group_string_axioms;

/// A file's path in the bundle is its path below the bundle's directory, character by character:
/// only backslashes become slashes.
pub proof fn law_path_is_kept(rel: Seq<char>)
    ensures
        crate::publish::bundle_path(rel).len() == rel.len(),
        forall|i: int|
            0 <= i < rel.len() && rel[i] != '\\' ==> #[trigger] crate::publish::bundle_path(rel)[i]
                == rel[i],
        forall|i: int|
            0 <= i < rel.len() && rel[i] == '\\' ==> #[trigger] crate::publish::bundle_path(rel)[i]
                == '/',
        !rel.contains('\\') ==> crate::publish::bundle_path(rel) == rel,
{
    if !rel.contains('\\') {
        assert(crate::publish::bundle_path(rel) =~= rel);
    }
}

/// A file is found by a request for a slash and its path: with no backslash and no empty, `.` or
/// `..` segment in the path, the request's key is the path, and what answers it is the content id
/// that the file was put in under.
pub proof fn law_published_path_is_found(
    files: Map<Seq<char>, Seq<char>>,
    rel: Seq<char>,
    cid: Seq<char>,
    spa: bool,
)
    requires
        rel.len() > 0,
        !rel.contains('\\'),
        forall|i: int| !crate::laws::paths::stumbles_at(rel, i),
    ensures
        crate::path::storage_key(seq!['/'] + rel) == Some(rel),
        crate::bundle::target(
            files.insert(crate::publish::bundle_path(rel), cid),
            spa,
            rel,
        ) == Some((cid, crate::path::media_type(rel))),
{
    law_path_is_kept(rel);
    assert(!crate::laws::paths::stumbles_at(rel, 0));
    let one: nat = 1;
    crate::laws::paths::law_path_is_its_key(one, rel);
    assert(Seq::new(one, |i: int| '/') =~= seq!['/']);
}

/// An argument that begins with two dashes.
pub open spec fn switch_like(arg: Seq<char>) -> bool {
    arg.len() >= 2 && arg[0] == '-' && arg[1] == '-'
}

/// The arguments that are no switches are all there, in order: a switch adds none, any other
/// argument adds itself.
pub proof fn law_arguments_keep_their_order(args: Seq<Seq<char>>, arg: Seq<char>)
    ensures
        crate::publish::positional(Seq::empty()) == Seq::<Seq<char>>::empty(),
        switch_like(arg) ==> crate::publish::positional(args.push(arg))
            == crate::publish::positional(args),
        !switch_like(arg) ==> crate::publish::positional(args.push(arg))
            == crate::publish::positional(args).push(arg),
{
    reveal_strlit("--");
    let all = args.push(arg);
    assert(all.drop_last() =~= args);
    assert(all.last() == arg);
    let two = crate::publish::SWITCH@;
    if two.is_prefix_of(arg) {
        assert(two[0] == arg.subrange(0, 2)[0] && two[1] == arg.subrange(0, 2)[1]);
    }
    if switch_like(arg) {
        assert(two =~= arg.subrange(0, 2));
    }
}

/// A command line asks for its first three arguments that are no switches: the directory and the
/// app as they are, the host in small letters. It asks for a single-page app unless `--no-spa` is
/// among the arguments, and for nothing where one of the three is missing.
pub proof fn law_plan_is_as_asked(args: Seq<Seq<char>>)
    ensures
        crate::publish::positional(args).len() < 3 <==> crate::publish::plan_of(args) is None,
        crate::publish::plan_of(args) matches Some(plan) ==> {
            &&& plan.dir == crate::publish::positional(args)[0]
            &&& plan.host == crate::text::lower(crate::publish::positional(args)[1])
            &&& plan.app_id == crate::publish::positional(args)[2]
            &&& plan.spa == !args.contains("--no-spa"@)
        },
{
}

/// Text without a quote, a backslash or a control character.
pub open spec fn plain(s: Seq<char>) -> bool {
    forall|i: int| 0 <= i < s.len() ==> ' ' <= #[trigger] s[i] && s[i] != '"' && s[i] != '\\'
}

pub(crate) proof fn lemma_plain(s: Seq<char>)
    requires
        plain(s),
    ensures
        crate::json::json_string(s) == seq!['"'] + s + seq!['"'],
{
    lemma_plain_chars(s);
}

proof fn lemma_plain_chars(s: Seq<char>)
    requires
        plain(s),
    ensures
        crate::json::json_chars(s) == s,
    decreases s.len(),
{
    if s.len() > 0 {
        lemma_plain_chars(s.drop_last());
        assert(s =~= s.drop_last() + seq![s.last()]);
    } else {
        assert(crate::json::json_chars(s) =~= s);
    }
}

proof fn lemma_chars_of_sum(a: Seq<char>, b: Seq<char>)
    ensures
        crate::json::json_chars(a + b) == crate::json::json_chars(a) + crate::json::json_chars(b),
    decreases b.len(),
{
    if b.len() == 0 {
        assert(a + b =~= a);
        assert(crate::json::json_chars(a) + crate::json::json_chars(b)
            =~= crate::json::json_chars(a));
    } else {
        lemma_chars_of_sum(a, b.drop_last());
        assert((a + b).drop_last() =~= a + b.drop_last());
        assert((a + b).last() == b.last());
        assert(crate::json::json_chars(a + b) =~= crate::json::json_chars(a)
            + crate::json::json_chars(b));
    }
}

/// What stands for a character in a JSON string: a backslash and the character for a quote and a
/// backslash, a backslash and a letter for the control characters that have one.
pub open spec fn escape_like(c: char, e: Seq<char>) -> bool {
    ||| (c == '"' || c == '\\') && e == seq!['\\', c]
    ||| c == '\n' && e == "\\n"@
    ||| c == '\r' && e == "\\r"@
    ||| c == '\t' && e == "\\t"@
    ||| c == '\u{8}' && e == "\\b"@
    ||| c == '\u{c}' && e == "\\f"@
    ||| c == '\u{0}' && e == "\\u0000"@
    ||| c == '\u{1b}' && e == "\\u001b"@
    ||| c == '\u{1f}' && e == "\\u001f"@
}

proof fn lemma_escape(c: char, e: Seq<char>)
    requires
        escape_like(c, e),
    ensures
        crate::json::json_char(c) == e,
{
    reveal_strlit("\\n");
    reveal_strlit("\\r");
    reveal_strlit("\\t");
    reveal_strlit("\\b");
    reveal_strlit("\\f");
    reveal_strlit("\\u0000");
    reveal_strlit("\\u001b");
    reveal_strlit("\\u001f");
    assert(crate::json::json_char(c) =~= e);
}

/// Plain text is a JSON string in quotes, as it is. A character that is not plain is escaped where
/// it stands, and what is before and behind it is written as it would be without it.
pub proof fn law_json_string(a: Seq<char>, c: char, e: Seq<char>, b: Seq<char>)
    requires
        escape_like(c, e),
    ensures
        plain(a) ==> crate::json::json_string(a) == seq!['"'] + a + seq!['"'],
        crate::json::json_string(a + seq![c] + b) == crate::json::json_string(a).drop_last() + e
            + crate::json::json_string(b).drop_first(),
{
    if plain(a) {
        lemma_plain(a);
    }
    lemma_escape(c, e);
    lemma_chars_of_sum(a + seq![c], b);
    lemma_chars_of_sum(a, seq![c]);
    lemma_single(c);
    assert(crate::json::json_string(a + seq![c] + b) =~= crate::json::json_string(a).drop_last()
        + e + crate::json::json_string(b).drop_first());
}

proof fn lemma_single(c: char)
    ensures
        crate::json::json_chars(seq![c]) == crate::json::json_char(c),
{
    assert(seq![c].drop_last() =~= Seq::<char>::empty());
    assert(crate::json::json_chars(Seq::<char>::empty()) =~= Seq::<char>::empty());
    assert(crate::json::json_chars(seq![c]) =~= crate::json::json_char(c));
}

/// Any other control character is written as its two hexadecimal digits, small ones, behind
/// `\u00`: the number that they stand for is that of the character.
pub proof fn law_control_characters_are_numbered(c: char)
    requires
        c as int != 8 && c as int != 9 && c as int != 10 && c as int != 12 && c as int != 13,
        0 <= c as int <= 31,
    ensures
        ({
            let s = crate::json::json_string(seq![c]);
            let high: int = if c as int >= 16 {
                1
            } else {
                0
            };
            let low: int = c as int - 16 * high;
            &&& s.len() == 8
            &&& s.take(5) == seq!['"'] + "\\u00"@
            &&& s[5] as int == 48 + high
            &&& s[6] as int == if low <= 9 {
                48 + low
            } else {
                87 + low
            }
            &&& s[7] == '"'
        }),
{
    reveal_strlit("\\u00");
    lemma_single(c);
    let s = crate::json::json_string(seq![c]);
    assert(s.take(5) =~= seq!['"'] + "\\u00"@);
}

/// A number is written in decimal, without zeros before it.
pub proof fn law_json_number(n: nat)
    ensures
        crate::json::decimal(n) == crate::laws::settings::numeral(n),
    decreases n,
{
    if n >= 10 {
        law_json_number(n / 10);
    }
}

/// A row of a JSON object.
pub open spec fn row_json(row: (Seq<char>, Seq<char>)) -> Seq<char> {
    crate::json::json_string(row.0) + ":"@ + crate::json::json_string(row.1)
}

/// The rows of a table are written one after the other, with commas between them and in braces.
pub proof fn law_json_table(
    rows: Seq<(Seq<char>, Seq<char>)>,
    row: (Seq<char>, Seq<char>),
)
    ensures
        crate::json::json_table(Seq::empty()) == "{}"@,
        crate::json::json_table(seq![row]) == "{"@ + row_json(row) + "}"@,
        rows.len() > 0 ==> crate::json::json_table(rows.push(row)) == crate::json::json_table(
            rows,
        ).drop_last() + ","@ + row_json(row) + "}"@,
{
    reveal_strlit("{}");
    reveal_strlit("{");
    reveal_strlit("}");
    reveal_strlit(",");
    reveal_strlit(":");
    let none = Seq::<(Seq<char>, Seq<char>)>::empty();
    let empty = Seq::new(none.len(), |i: int| (none[i].0, crate::json::json_string(none[i].1)));
    assert(crate::json::json_members(empty) =~= Seq::<char>::empty());
    assert(crate::json::json_table(none) =~= "{}"@);
    let one = seq![row];
    let ones = Seq::new(one.len(), |i: int| (one[i].0, crate::json::json_string(one[i].1)));
    assert(crate::json::json_members(ones) =~= row_json(row));
    assert(crate::json::json_table(one) =~= "{"@ + row_json(row) + "}"@);
    if rows.len() > 0 {
        let more = rows.push(row);
        let a = Seq::new(rows.len(), |i: int| (rows[i].0, crate::json::json_string(rows[i].1)));
        let b = Seq::new(more.len(), |i: int| (more[i].0, crate::json::json_string(more[i].1)));
        assert(b.drop_last() =~= a);
        assert(b.last() == (row.0, crate::json::json_string(row.1)));
        assert(crate::json::json_members(b) =~= crate::json::json_members(a) + ","@ + row_json(
            row,
        ));
        assert(crate::json::json_table(rows).drop_last() =~= "{"@ + crate::json::json_members(a));
        assert(crate::json::json_table(more) =~= crate::json::json_table(rows).drop_last() + ","@
            + row_json(row) + "}"@);
    }
}

/// The manifest of any bundle, letter for letter: its files, whether it is a single-page app, and
/// version one.
pub proof fn law_manifest_document(rows: Seq<(Seq<char>, Seq<char>)>)
    ensures
        crate::publish::manifest_json(true, rows) == "{\"files\":"@ + crate::json::json_table(rows)
            + ",\"spa\":true,\"v\":1}"@,
        crate::publish::manifest_json(false, rows) == "{\"files\":"@ + crate::json::json_table(
            rows,
        ) + ",\"spa\":false,\"v\":1}"@,
{
    lemma_manifest(true, rows);
    lemma_manifest(false, rows);
    reveal_strlit("{\"files\":");
    reveal_strlit(",\"spa\":true,\"v\":1}");
    reveal_strlit(",\"spa\":false,\"v\":1}");
    reveal_strlit("true");
    reveal_strlit("false");
    let t = crate::json::json_table(rows);
    assert(crate::publish::manifest_json(true, rows) =~= "{\"files\":"@ + t
        + ",\"spa\":true,\"v\":1}"@);
    assert(crate::publish::manifest_json(false, rows) =~= "{\"files\":"@ + t
        + ",\"spa\":false,\"v\":1}"@);
}

proof fn lemma_three(
    a: (Seq<char>, Seq<char>),
    b: (Seq<char>, Seq<char>),
    c: (Seq<char>, Seq<char>),
)
    requires
        plain(a.0),
        plain(b.0),
        plain(c.0),
    ensures
        crate::json::json_object(seq![a, b, c]) == seq!['{', '"'] + a.0 + seq!['"', ':'] + a.1
            + seq![',', '"'] + b.0 + seq!['"', ':'] + b.1 + seq![',', '"'] + c.0 + seq!['"', ':']
            + c.1 + seq!['}'],
{
    lemma_plain(a.0);
    lemma_plain(b.0);
    lemma_plain(c.0);
    let three = seq![a, b, c];
    assert(three.drop_last() =~= seq![a, b]);
    assert(seq![a, b].drop_last() =~= seq![a]);
    reveal_with_fuel(crate::json::json_members, 4);
    let q = seq!['"'];
    let m1 = q + a.0 + q + seq![':'] + a.1;
    let m2 = m1 + seq![','] + (q + b.0 + q + seq![':'] + b.1);
    let m3 = m2 + seq![','] + (q + c.0 + q + seq![':'] + c.1);
    assert(crate::json::json_members(seq![a]) =~= m1);
    assert(crate::json::json_members(seq![a, b]) =~= m2);
    assert(crate::json::json_members(three) =~= m3);
    assert(crate::json::json_object(three) =~= seq!['{', '"'] + a.0 + seq!['"', ':'] + a.1
        + seq![',', '"'] + b.0 + seq!['"', ':'] + b.1 + seq![',', '"'] + c.0 + seq!['"', ':'] + c.1
        + seq!['}']);
}

proof fn lemma_manifest(spa: bool, rows: Seq<(Seq<char>, Seq<char>)>)
    ensures
        crate::publish::manifest_json(spa, rows) == seq!['{', '"', 'f', 'i', 'l', 'e', 's', '"', ':']
            + crate::json::json_table(rows) + seq![',', '"', 's', 'p', 'a', '"', ':']
            + crate::json::json_flag(spa) + seq![',', '"', 'v', '"', ':', '1', '}'],
{
    reveal_strlit("files");
    reveal_strlit("spa");
    reveal_strlit("v");
    let t = crate::json::json_table(rows);
    let f = crate::json::json_flag(spa);
    lemma_three(("files"@, t), ("spa"@, f), ("v"@, seq!['1']));
    assert(crate::publish::manifest_json(spa, rows) =~= seq![
        '{',
        '"',
        'f',
        'i',
        'l',
        'e',
        's',
        '"',
        ':',
    ] + t + seq![',', '"', 's', 'p', 'a', '"', ':'] + f + seq![',', '"', 'v', '"', ':', '1', '}']);
}

/// The record of any host, letter for letter: the app, the manifest's content id, and whether it is
/// a single-page app.
pub proof fn law_record_document(app_id: Seq<char>, cid: Seq<char>)
    ensures
        crate::publish::record_json(app_id, cid, true) == "{\"app_id\":"@
            + crate::json::json_string(app_id) + ",\"cid\":"@ + crate::json::json_string(cid)
            + ",\"spa\":true}"@,
        crate::publish::record_json(app_id, cid, false) == "{\"app_id\":"@
            + crate::json::json_string(app_id) + ",\"cid\":"@ + crate::json::json_string(cid)
            + ",\"spa\":false}"@,
{
    reveal_strlit("app_id");
    reveal_strlit("cid");
    reveal_strlit("spa");
    reveal_strlit("true");
    reveal_strlit("false");
    reveal_strlit("{\"app_id\":");
    reveal_strlit(",\"cid\":");
    reveal_strlit(",\"spa\":true}");
    reveal_strlit(",\"spa\":false}");
    let a = crate::json::json_string(app_id);
    let c = crate::json::json_string(cid);
    lemma_three(("app_id"@, a), ("cid"@, c), ("spa"@, "true"@));
    lemma_three(("app_id"@, a), ("cid"@, c), ("spa"@, "false"@));
    assert(crate::publish::record_json(app_id, cid, true) =~= "{\"app_id\":"@ + a + ",\"cid\":"@ + c
        + ",\"spa\":true}"@);
    assert(crate::publish::record_json(app_id, cid, false) =~= "{\"app_id\":"@ + a + ",\"cid\":"@
        + c + ",\"spa\":false}"@);
}

} // verus!
