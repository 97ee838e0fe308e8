//! Publishing a bundle: what is asked for on the command line, the manifest that goes into the
//! blob store, and the record that goes to the hub.
use vstd::prelude::*;
use crate::json::{to_json, Member};
use crate::table::FileTable;
use crate::text::{begins_with, chars_of, joined, same_text, to_lower};

verus! {

broadcast use vstd::string::group_string_axioms;

/// What a command line asks to be published.
pub struct Plan {
    /// The directory of the built bundle.
    pub dir: String,
    /// The host that is to serve it.
    pub host: String,
    /// The app that it belongs to.
    pub app_id: String,
    /// Whether it is a single-page app.
    pub spa: bool,
}

/// What a command line asks to be published, as the texts that it holds.
pub struct PlanView {
    pub dir: Seq<char>,
    pub host: Seq<char>,
    pub app_id: Seq<char>,
    pub spa: bool,
}

/// The switch for a bundle that is not a single-page app.
pub const NO_SPA: &'static str = "--no-spa";

/// Every switch begins with these.
pub const SWITCH: &'static str = "--";

/// The texts of some arguments.
pub open spec fn arg_texts(args: Seq<String>) -> Seq<Seq<char>> {
    Seq::new(args.len(), |i: int| args[i]@)
}

/// The arguments that are no switches, in order.
pub open spec fn positional(args: Seq<Seq<char>>) -> Seq<Seq<char>>
    decreases args.len(),
{
    if args.len() == 0 {
        Seq::empty()
    } else if SWITCH@.is_prefix_of(args.last()) {
        positional(args.drop_last())
    } else {
        positional(args.drop_last()).push(args.last())
    }
}

/// What a command line asks to be published: a directory, a host in small letters and an app, the
/// first three arguments that are no switches, as a single-page app unless a switch says no. None
/// where an argument is missing.
pub open spec fn plan_of(args: Seq<Seq<char>>) -> Option<PlanView> {
    let pos = positional(args);
    if pos.len() < 3 {
        None
    } else {
        Some(
            PlanView {
                dir: pos[0],
                host: crate::text::lower(pos[1]),
                app_id: pos[2],
                spa: !args.contains(NO_SPA@),
            },
        )
    }
}

/// A plan, as the texts that it holds.
pub open spec fn plan_texts(p: Option<Plan>) -> Option<PlanView> {
    match p {
        Some(p) => Some(
            PlanView { dir: p.dir@, host: p.host@, app_id: p.app_id@, spa: p.spa },
        ),
        None => None,
    }
}

/// What a command line, without the program's name, asks to be published.
pub fn read_args(args: &Vec<String>) -> (r: Option<Plan>)
    ensures
        plan_texts(r) == plan_of(arg_texts(args@)),
{
    let ghost texts = arg_texts(args@);
    let mut pos: Vec<String> = Vec::new();
    let mut spa = true;
    let mut i: usize = 0;
    assert(arg_texts(pos@) =~= positional(texts.take(0)));
    while i < args.len()
        invariant
            i <= args@.len(),
            texts == arg_texts(args@),
            arg_texts(pos@) == positional(texts.take(i as int)),
            spa == !texts.take(i as int).contains(NO_SPA@),
        decreases args@.len() - i,
    {
        let ghost done = texts.take(i as int);
        let ghost more = texts.take(i + 1);
        assert(more =~= done.push(args@[i as int]@));
        assert(more.drop_last() =~= done);
        let arg = args[i].as_str();
        if same_text(arg, NO_SPA) {
            spa = false;
            assert(more[i as int] == NO_SPA@);
        }
        assert(more.contains(NO_SPA@) == (done.contains(NO_SPA@) || arg@ == NO_SPA@)) by {
            if done.contains(NO_SPA@) {
                let k = choose|k: int| 0 <= k < done.len() && done[k] == NO_SPA@;
                assert(more[k] == NO_SPA@);
            }
        }
        if !begins_with(arg, SWITCH) {
            let ghost before = arg_texts(pos@);
            let copy = args[i].clone();
            let ghost copied = copy@;
            pos.push(copy);
            assert(arg_texts(pos@) =~= before.push(copied));
        }
        i += 1;
    }
    assert(texts.take(i as int) =~= texts);
    if pos.len() < 3 {
        return None;
    }
    assert(arg_texts(pos@)[0] == pos@[0]@ && arg_texts(pos@)[1] == pos@[1]@ && arg_texts(pos@)[2]
        == pos@[2]@);
    Some(
        Plan {
            dir: pos[0].clone(),
            host: to_lower(pos[1].as_str()),
            app_id: pos[2].clone(),
            spa,
        },
    )
}

/// A path below the bundle's directory as the bundle's path: with slashes for backslashes.
pub open spec fn bundle_path(rel: Seq<char>) -> Seq<char> {
    Seq::new(
        rel.len(),
        |i: int|
            if rel[i] == '\\' {
                '/'
            } else {
                rel[i]
            },
    )
}

/// A path below the bundle's directory as the bundle's path.
pub fn path_in_bundle(rel: &str) -> (r: String)
    ensures
        r@ == bundle_path(rel@),
{
    let v = chars_of(rel);
    let mut out = String::new();
    let mut i: usize = 0;
    while i < v.len()
        invariant
            i <= v@.len(),
            out@ == bundle_path(v@.take(i as int)),
        decreases v@.len() - i,
    {
        let c: char = if v[i] == '\\' {
            '/'
        } else {
            v[i]
        };
        out.push(c);
        assert(out@ =~= bundle_path(v@.take(i + 1)));
        i += 1;
    }
    assert(v@.take(i as int) =~= v@);
    out
}

/// The manifest of a bundle, as JSON: its files in the order of their paths, whether it is a
/// single-page app, and the version of this format.
pub open spec fn manifest_json(spa: bool, rows: Seq<(Seq<char>, Seq<char>)>) -> Seq<char> {
    crate::json::json_object(
        seq![
            ("files"@, crate::json::json_table(rows)),
            ("spa"@, crate::json::json_flag(spa)),
            ("v"@, seq!['1']),
        ],
    )
}

/// The manifest of a bundle, in the bytes that are put into the blob store.
pub fn manifest_document(spa: bool, files: &FileTable) -> (r: Vec<u8>)
    ensures
        r@ == vstd::utf8::encode_utf8(manifest_json(spa, files.rows())),
{
    let rows = files.entries();
    let mut members: Vec<(&str, Member)> = Vec::new();
    members.push(("files", Member::Table(rows)));
    members.push(("spa", Member::Flag(spa)));
    members.push(("v", Member::Number(1)));
    proof {
        let texts = crate::json::member_texts(members@);
        assert(texts =~= seq![
            ("files"@, crate::json::json_table(files.rows())),
            ("spa"@, crate::json::json_flag(spa)),
            ("v"@, seq!['1']),
        ]);
        reveal_strlit("files");
        reveal_strlit("spa");
        reveal_strlit("v");
        assert("files"@[0] == 'f' && "spa"@[0] == 's' && "v"@[0] == 'v');
    }
    vstd::slice::slice_to_vec(to_json(&members).as_str().as_bytes())
}

/// The record that points a host at its bundle, as JSON.
pub open spec fn record_json(app_id: Seq<char>, cid: Seq<char>, spa: bool) -> Seq<char> {
    crate::json::json_object(
        seq![
            ("app_id"@, crate::json::json_string(app_id)),
            ("cid"@, crate::json::json_string(cid)),
            ("spa"@, crate::json::json_flag(spa)),
        ],
    )
}

/// The record that points a host at its bundle, in the bytes that are sent to the hub.
pub fn bundle_record(app_id: &str, cid: &str, spa: bool) -> (r: Vec<u8>)
    ensures
        r@ == vstd::utf8::encode_utf8(record_json(app_id@, cid@, spa)),
{
    let mut members: Vec<(&str, Member)> = Vec::new();
    members.push(("app_id", Member::Text(app_id)));
    members.push(("cid", Member::Text(cid)));
    members.push(("spa", Member::Flag(spa)));
    proof {
        let texts = crate::json::member_texts(members@);
        assert(texts =~= seq![
            ("app_id"@, crate::json::json_string(app_id@)),
            ("cid"@, crate::json::json_string(cid@)),
            ("spa"@, crate::json::json_flag(spa)),
        ]);
        reveal_strlit("app_id");
        reveal_strlit("cid");
        reveal_strlit("spa");
        assert("app_id"@[0] == 'a' && "cid"@[0] == 'c' && "spa"@[0] == 's');
    }
    vstd::slice::slice_to_vec(to_json(&members).as_str().as_bytes())
}

/// Where the hub takes the record of a host.
pub fn record_url(hub_url: &str, host: &str) -> (r: String)
    ensures
        r@ == hub_url@ + "/bundles/"@ + host@,
{
    let base = joined(hub_url, "/bundles/");
    joined(base.as_str(), host)
}

/// The manifest of a bundle, and so its content id, follows from what the bundle holds: the order
/// in which its files were found makes no difference.
pub proof fn law_manifest_follows_content(
    spa: bool,
    a: Seq<(Seq<char>, Seq<char>)>,
    b: Seq<(Seq<char>, Seq<char>)>,
)
    requires
        crate::table::ordered(a),
        crate::table::ordered(b),
        crate::table::as_map(a) == crate::table::as_map(b),
    ensures
        manifest_json(spa, a) == manifest_json(spa, b),
{
    crate::table::law_rows_follow_mapping(a, b);
}

/// A published host is the one that requests are looked up by: a request that names it, in
/// whatever capitals and with a port or without, has the host of the plan. The name has to be a
/// bare host, and the port may not close a bracket that the name opens.
pub proof fn law_published_host_is_found(
    args: Seq<Seq<char>>,
    plan: PlanView,
    name: Seq<char>,
    port: Seq<char>,
    default: Seq<char>,
)
    requires
        plan_of(args) == Some(plan),
        crate::text::lower(name) == plan.host,
        crate::request::is_bare_host(name),
        crate::request::unclosed(name) ==> !port.contains(']'),
    ensures
        crate::request::request_host(Some(name), default) == plan.host,
        crate::request::request_host(Some(name + seq![':'] + port), default) == plan.host,
{
    crate::request::law_bare_host_is_its_name(name, default);
    crate::request::law_host_ignores_port(name, port, default);
}

} // verus!
