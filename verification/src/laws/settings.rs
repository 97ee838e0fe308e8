//! Laws of the settings: what each variable comes to.
use vstd::prelude::*;

verus! {

broadcast use vstd::string::group_string_axioms;

/// A variable that is set has its value, even an empty one; one that is not has the default. The
/// defaults are the directory `site` and a hub at port 8970 of this machine.
pub proof fn law_set_value_wins(v: Seq<char>, default: Seq<char>)
    ensures
        crate::config::value_or(Some(v), default) == v,
        crate::config::value_or(None, default) == default,
        crate::config::value_or(None, crate::config::DEFAULT_SITE_ROOT@) == "site"@,
        crate::config::value_or(None, crate::config::DEFAULT_HUB_URL@)
            == "http://127.0.0.1:8970"@,
{
}

/// The node is reached where the variable says, without the white space around it; where it says
/// nothing, at port 8844 of this machine.
pub proof fn law_node_is_where_it_says(a: Seq<char>, url: Seq<char>, b: Seq<char>)
    requires
        crate::laws::hosts::blank(a),
        crate::laws::hosts::blank(b),
        url.len() > 0,
        !crate::text::is_white(url[0]),
        !crate::text::is_white(url.last()),
    ensures
        crate::config::node_address(Some(a + url + b)) == url,
        crate::config::node_address(Some(a)) == "http://127.0.0.1:8844"@,
        crate::config::node_address(None) == "http://127.0.0.1:8844"@,
{
    crate::laws::texts::law_strip_white(a, url, b);
    let none = Seq::<char>::empty();
    crate::laws::texts::law_strip_white(a, none, none);
    assert(a + none + none =~= a);
}

/// The decimal digits of a number, without zeros before them.
pub open spec fn numeral(n: nat) -> Seq<char>
    decreases n,
{
    if n < 10 {
        seq![(48 + n) as char]
    } else {
        numeral(n / 10).push((48 + n % 10) as char)
    }
}

/// Some zeros.
pub open spec fn zeros(count: nat) -> Seq<char> {
    Seq::new(count, |i: int| '0')
}

proof fn lemma_zeros(count: nat)
    ensures
        crate::config::digits_value(zeros(count)) == 0,
    decreases count,
{
    if count > 0 {
        let less = (count - 1) as nat;
        lemma_zeros(less);
        assert(zeros(count).drop_last() =~= zeros(less));
    }
}

proof fn lemma_numeral(count: nat, n: nat)
    ensures
        numeral(n).len() > 0,
        forall|i: int| 0 <= i < numeral(n).len() ==> '0' <= #[trigger] numeral(n)[i] <= '9',
        crate::config::digits_value(zeros(count) + numeral(n)) == n,
    decreases n,
{
    let all = zeros(count) + numeral(n);
    if n < 10 {
        lemma_zeros(count);
        assert(all.drop_last() =~= zeros(count));
    } else {
        lemma_numeral(count, n / 10);
        assert(all.drop_last() =~= zeros(count) + numeral(n / 10));
        assert(all.last() == (48 + n % 10) as char);
    }
}

/// A number is read as itself, with zeros or a plus sign before it or without; one that is no port
/// is none.
pub proof fn law_number_is_its_port(count: nat, n: nat)
    ensures
        n <= 65535 ==> crate::config::port_in(zeros(count) + numeral(n)) == Some(n as u16),
        n <= 65535 ==> crate::config::port_in(seq!['+'] + zeros(count) + numeral(n)) == Some(
            n as u16,
        ),
        n > 65535 ==> crate::config::port_in(zeros(count) + numeral(n)) is None,
        n > 65535 ==> crate::config::port_in(seq!['+'] + zeros(count) + numeral(n)) is None,
{
    lemma_numeral(count, n);
    let all = zeros(count) + numeral(n);
    assert forall|i: int| 0 <= i < all.len() implies crate::config::is_digit(
        #[trigger] all[i],
    ) by {
        if i >= count {
            assert(all[i] == numeral(n)[i - count]);
        }
    }
    assert(crate::config::is_digit(all[0]));
    assert(crate::config::unsigned(all) == all);
    let signed = seq!['+'] + zeros(count) + numeral(n);
    assert(signed[0] == '+');
    assert(signed.drop_first() =~= all);
}

/// A text with anything but digits in it, but for a plus sign at its start, is no port; nor is one
/// without digits.
pub proof fn law_other_text_is_no_port(s: Seq<char>, i: int)
    requires
        0 <= i < s.len(),
        !('0' <= s[i] <= '9'),
        i == 0 ==> s[i] != '+',
    ensures
        crate::config::port_in(s) is None,
        crate::config::port_in(Seq::empty()) is None,
        crate::config::port_in(seq!['+']) is None,
{
    let d = crate::config::unsigned(s);
    if s[0] == '+' {
        assert(d[i - 1] == s[i]);
    } else {
        assert(d[i] == s[i]);
    }
    assert(seq!['+'].drop_first() =~= Seq::<char>::empty());
}

/// The port is that of the variable; where it is missing or stands for none, 8790.
pub proof fn law_port_has_a_default(v: Seq<char>, port: u16)
    ensures
        crate::config::port_in(v) == Some(port) ==> crate::config::port_setting(Some(v)) == port,
        crate::config::port_in(v) is None ==> crate::config::port_setting(Some(v)) == 8790,
        crate::config::port_setting(None) == 8790,
{
}

/// The local site is a single-page one unless the variable is a single zero.
pub proof fn law_only_zero_says_no(v: Seq<char>)
    ensures
        crate::config::spa_setting(None),
        crate::config::spa_setting(Some(v)) <==> v != seq!['0'],
{
    reveal_strlit("0");
    assert("0"@ =~= seq!['0']);
}

} // verus!
