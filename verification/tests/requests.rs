use ce_serve::request::{held_tag, req_host};

#[test]
fn host_is_lowered_without_port() {
    assert_eq!(req_host(Some("CE-Net.com"), ""), "ce-net.com");
    assert_eq!(req_host(Some("ce-net.com:8790"), ""), "ce-net.com");
    assert_eq!(req_host(Some("  Ce-Net.Com \t:80"), ""), "ce-net.com");
    assert_eq!(req_host(Some("a:b:c"), ""), "a");
}

#[test]
fn default_host_stands_in() {
    assert_eq!(req_host(None, "CE-net.com"), "ce-net.com");
    assert_eq!(req_host(Some(""), "Default"), "default");
    assert_eq!(req_host(Some(" :80"), "Default"), "default");
    assert_eq!(req_host(None, ""), "");
}

#[test]
fn only_ascii_capitals_are_lowered() {
    assert_eq!(req_host(Some("\u{c9}T\u{c9}"), ""), "\u{c9}t\u{c9}");
}

#[test]
fn tag_is_unquoted() {
    assert_eq!(held_tag(Some("\"abc\"")), Some("abc".to_string()));
    assert_eq!(held_tag(Some("  \"abc\"  ")), Some("abc".to_string()));
    assert_eq!(held_tag(Some("abc")), Some("abc".to_string()));
    assert_eq!(held_tag(Some("\"\"")), Some(String::new()));
    assert_eq!(held_tag(Some("W/\"abc\"")), Some("W/\"abc".to_string()));
    assert_eq!(held_tag(Some("\" a \"")), Some(" a ".to_string()));
    assert_eq!(held_tag(None), None);
}

#[test]
fn ipv6_literal_keeps_its_brackets() {
    assert_eq!(req_host(Some("[::1]:8790"), "ce-net.com"), "[::1]");
    assert_eq!(req_host(Some("[::1]"), "ce-net.com"), "[::1]");
    assert_eq!(req_host(Some(" [2001:DB8::1]:443 "), ""), "[2001:db8::1]");
    assert_eq!(req_host(Some("[::1"), ""), "[");
    assert_eq!(req_host(Some("a]:80"), ""), "a]");
    assert_eq!(req_host(Some("[a]b:80"), ""), "[a]b");
    assert_eq!(req_host(Some("[::1]b"), ""), "[::1]b");
    assert_eq!(req_host(Some("[::1]b:1:2]"), ""), "[::1]b");
}
