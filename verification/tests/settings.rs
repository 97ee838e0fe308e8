use ce_serve::config::{configure, node_url, parse_port, setting, DEFAULT_HUB_URL};

fn var(s: &str) -> Option<String> {
    Some(s.to_string())
}

#[test]
fn defaults_without_variables() {
    let c = configure(None, None, None, None, None);
    assert_eq!(c.site_root, "site");
    assert!(c.spa);
    assert_eq!(c.port, 8790);
    assert_eq!(c.default_host, "");
    assert_eq!(c.node_url, "http://127.0.0.1:8844");
}

#[test]
fn variables_are_taken() {
    let c = configure(var("www"), var("0"), var("80"), var("Ce-Net.com"), var(" http://n \n"));
    assert_eq!(c.site_root, "www");
    assert!(!c.spa);
    assert_eq!(c.port, 80);
    assert_eq!(c.default_host, "Ce-Net.com");
    assert_eq!(c.node_url, "http://n");
    assert!(configure(None, var("false"), None, None, None).spa);
    assert_eq!(configure(None, None, var("x"), None, None).port, 8790);
}

#[test]
fn blank_node_url_is_the_default() {
    assert_eq!(node_url(var("")), "http://127.0.0.1:8844");
    assert_eq!(node_url(var(" \t\u{a0}\u{3000}")), "http://127.0.0.1:8844");
    assert_eq!(node_url(var("\u{2003}x y\u{85}")), "x y");
}

#[test]
fn white_space_is_what_std_says() {
    for n in 0..0x11_0000u32 {
        if let Some(c) = char::from_u32(n) {
            assert_eq!(ce_serve::text::CharSet::White.holds(c), c.is_whitespace());
        }
    }
}

#[test]
fn ports_are_read_as_std_reads_them() {
    for s in [
        "0", "1", "8790", "65535", "65536", "+80", "+", "", "-1", "080", "0000000000000080", "1 ",
        "99999999999999999999", "++1", "1x", "\u{661}",
    ] {
        assert_eq!(parse_port(s), s.parse::<u16>().ok(), "{s}");
    }
}

#[test]
fn settings_fall_back() {
    assert_eq!(setting(None, DEFAULT_HUB_URL), "http://127.0.0.1:8970");
    assert_eq!(setting(var(""), DEFAULT_HUB_URL), "");
}
