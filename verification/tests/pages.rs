use ce_serve::html::{bridge_page, inject_bridge, BRIDGE_TAG};

fn inject(html: &str) -> String {
    String::from_utf8(inject_bridge(html.as_bytes())).unwrap()
}

#[test]
fn element_goes_before_head_end() {
    assert_eq!(
        inject("<html><head></head><body></body></html>"),
        "<html><head><script src=\"/__ce/mesh-bridge.js\"></script></head><body></body></html>"
    );
}

#[test]
fn first_head_end_is_taken() {
    assert_eq!(inject("</head></head>"), format!("{BRIDGE_TAG}</head></head>"));
    assert_eq!(inject("</body></head>"), format!("</body>{BRIDGE_TAG}</head>"));
}

#[test]
fn body_end_is_second_choice() {
    assert_eq!(inject("<p>hi</p></body>"), format!("<p>hi</p>{BRIDGE_TAG}</body>"));
}

#[test]
fn element_is_appended_otherwise() {
    assert_eq!(inject("hi"), format!("hi{BRIDGE_TAG}"));
    assert_eq!(inject(""), BRIDGE_TAG);
    assert_eq!(inject("</HEAD>"), format!("</HEAD>{BRIDGE_TAG}"));
}

#[test]
fn bridged_page_is_left_alone() {
    for page in ["", "hi", "<head></head>", "<body>caf\u{e9}</body>", "</hea</head>"] {
        let once = inject(page);
        assert_eq!(once.matches(BRIDGE_TAG).count(), 1);
        assert_eq!(inject(&once), once);
        assert_eq!(once.replace(BRIDGE_TAG, ""), page);
    }
}

#[test]
fn bytes_outside_utf8_are_replaced() {
    let out = inject_bridge(b"a\xffb</head>");
    let expected = format!("a\u{fffd}b{BRIDGE_TAG}</head>");
    assert_eq!(out, expected.into_bytes());
    assert_eq!(inject_bridge(&out), out);
}

#[test]
fn bridged_page_keeps_its_bytes() {
    let mut page = BRIDGE_TAG.as_bytes().to_vec();
    page.push(0xff);
    assert_eq!(inject_bridge(&page), page);
}

#[test]
fn page_text_decides_where_the_element_goes() {
    let out = bridge_page(b"raw", &b"x</head>".to_vec());
    assert_eq!(out, format!("x{BRIDGE_TAG}</head>").into_bytes());
    let out = bridge_page(BRIDGE_TAG.as_bytes(), &b"x</head>".to_vec());
    assert_eq!(out, BRIDGE_TAG.as_bytes().to_vec());
}

#[test]
fn every_page_holds_the_element_in_its_bytes() {
    let mut whole = b"\xc3".to_vec();
    whole.extend_from_slice(BRIDGE_TAG.as_bytes());
    let mut broken = BRIDGE_TAG.as_bytes()[..10].to_vec();
    broken.push(0xe2);
    broken.extend_from_slice(&BRIDGE_TAG.as_bytes()[10..]);
    for page in [whole, broken, b"\xff\xfe".to_vec(), b"<head>\xf0\x9f</head>".to_vec()] {
        let out = inject_bridge(&page);
        let tag = BRIDGE_TAG.as_bytes();
        assert!(out.windows(tag.len()).any(|w| w == tag));
        assert_eq!(inject_bridge(&out), out);
    }
}
