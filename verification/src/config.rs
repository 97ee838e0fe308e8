//! The settings of the edge, from its environment variables.
use vstd::prelude::*;
use crate::text::{chars_of, same_text, stripped, CharSet};

verus! {

broadcast use vstd::string::group_string_axioms;

/// Where the node is reached by default.
pub const DEFAULT_NODE_URL: &'static str = "http://127.0.0.1:8844";

/// Where the hub's registry is reached by default.
pub const DEFAULT_HUB_URL: &'static str = "http://127.0.0.1:8970";

/// The root of the local site by default.
pub const DEFAULT_SITE_ROOT: &'static str = "site";

/// The port that is listened on by default.
pub const DEFAULT_PORT: u16 = 8790;

/// The value that a variable has, or the default.
pub open spec fn value_or(var: Option<Seq<char>>, default: Seq<char>) -> Seq<char> {
    match var {
        Some(v) => v,
        None => default,
    }
}

/// The value that a variable has, or the default.
pub fn setting(var: Option<String>, default: &str) -> (r: String)
    ensures
        r@ == value_or(crate::text::text(var), default@),
{
    match var {
        Some(v) => v,
        None => default.to_owned(),
    }
}

/// Where the node is reached: the variable without surrounding white space, or the default where
/// it is missing or blank.
pub open spec fn node_address(var: Option<Seq<char>>) -> Seq<char> {
    match var {
        Some(v) if crate::text::strip(v, CharSet::White).len() > 0 => crate::text::strip(
            v,
            CharSet::White,
        ),
        _ => DEFAULT_NODE_URL@,
    }
}

/// Where the node is reached, from `CE_NODE_URL`.
pub fn node_url(var: Option<String>) -> (r: String)
    ensures
        r@ == node_address(crate::text::text(var)),
{
    if let Some(v) = var {
        let url = stripped(v.as_str(), CharSet::White);
        if !url.as_str().is_empty() {
            return url;
        }
    }
    DEFAULT_NODE_URL.to_owned()
}

/// A decimal digit.
pub open spec fn is_digit(c: char) -> bool {
    '0' <= c <= '9'
}

/// The number that some decimal digits stand for.
pub open spec fn digits_value(s: Seq<char>) -> nat
    decreases s.len(),
{
    if s.len() == 0 {
        0
    } else {
        10 * digits_value(s.drop_last()) + (s.last() as nat - '0' as nat) as nat
    }
}

/// The digits of a number: what stands behind its sign, if it has one.
pub open spec fn unsigned(s: Seq<char>) -> Seq<char> {
    if s.len() > 0 && s[0] == '+' {
        s.drop_first()
    } else {
        s
    }
}

/// The port that a text stands for: decimal digits, a plus sign before them or not, of a number
/// that fits sixteen bits.
pub open spec fn port_in(s: Seq<char>) -> Option<u16> {
    let d = unsigned(s);
    if d.len() > 0 && (forall|i: int| 0 <= i < d.len() ==> is_digit(#[trigger] d[i]))
        && digits_value(d) <= u16::MAX {
        Some(digits_value(d) as u16)
    } else {
        None
    }
}

/// The port that a text stands for.
pub fn parse_port(s: &str) -> (r: Option<u16>)
    ensures
        r == port_in(s@),
{
    let v = chars_of(s);
    let ghost d = unsigned(v@);
    let start: usize = if v.len() > 0 && v[0] == '+' {
        1
    } else {
        0
    };
    assert(d =~= v@.skip(start as int));
    if start == v.len() {
        return None;
    }
    let mut total: u32 = 0;
    let mut small = true;
    let mut i: usize = start;
    assert(d.take(0) =~= Seq::<char>::empty());
    while i < v.len()
        invariant
            start <= i <= v@.len(),
            v@ == s@,
            d == unsigned(v@),
            d == v@.skip(start as int),
            forall|j: int| 0 <= j < i - start ==> is_digit(#[trigger] d[j]),
            small ==> total <= 65535 && total == digits_value(d.take(i - start)),
            !small ==> digits_value(d.take(i - start)) > 65535,
        decreases v@.len() - i,
    {
        let c = v[i];
        assert(d[i - start] == c);
        if !('0' <= c && c <= '9') {
            return None;
        }
        assert(d.take(i + 1 - start).drop_last() =~= d.take(i - start));
        assert(d.take(i + 1 - start).last() == c);
        if small {
            total = total * 10 + (c as u32 - '0' as u32);
            small = total <= 65535;
        }
        i += 1;
    }
    assert(d.take(i - start) =~= d);
    if small {
        Some(total as u16)
    } else {
        None
    }
}

/// The settings of the edge.
pub struct Config {
    /// The root of the local site.
    pub site_root: String,
    /// Whether the local site is a single-page one.
    pub spa: bool,
    /// The port that is listened on.
    pub port: u16,
    /// The host of a request that names none.
    pub default_host: String,
    /// Where the node is reached.
    pub node_url: String,
}

/// Whether the local site is a single-page one: yes, unless the variable is `0`.
pub open spec fn spa_setting(var: Option<Seq<char>>) -> bool {
    var != Some("0"@)
}

/// The port that is listened on: that of the variable where it stands for one, or the default.
pub open spec fn port_setting(var: Option<Seq<char>>) -> u16 {
    match var {
        Some(v) => match port_in(v) {
            Some(port) => port,
            None => DEFAULT_PORT,
        },
        None => DEFAULT_PORT,
    }
}

/// The settings of the edge, from `CE_SERVE_ROOT`, `CE_SERVE_SPA`, `CE_SERVE_PORT`,
/// `CE_SERVE_DEFAULT_HOST` and `CE_NODE_URL`.
pub fn configure(
    root: Option<String>,
    spa: Option<String>,
    port: Option<String>,
    default_host: Option<String>,
    node: Option<String>,
) -> (r: Config)
    ensures
        r.site_root@ == value_or(crate::text::text(root), DEFAULT_SITE_ROOT@),
        r.spa == spa_setting(crate::text::text(spa)),
        r.port == port_setting(crate::text::text(port)),
        r.default_host@ == value_or(crate::text::text(default_host), Seq::empty()),
        r.node_url@ == node_address(crate::text::text(node)),
{
    let port_number = match &port {
        Some(v) => match parse_port(v.as_str()) {
            Some(n) => n,
            None => DEFAULT_PORT,
        },
        None => DEFAULT_PORT,
    };
    let single_page = match &spa {
        Some(v) => !same_text(v.as_str(), "0"),
        None => true,
    };
    Config {
        site_root: setting(root, DEFAULT_SITE_ROOT),
        spa: single_page,
        port: port_number,
        default_host: match default_host {
            Some(h) => h,
            None => String::new(),
        },
        node_url: node_url(node),
    }
}

} // verus!
