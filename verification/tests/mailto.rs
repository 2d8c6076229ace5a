use sieve::mailto::{insert_address, AddressField, HeaderName, MailtoMessage};
use sieve::uri::{parse_mailto, parse_uri, validate_uri};

fn strings(items: &[&str]) -> Vec<String> {
    items.iter().map(|s| s.to_string()).collect()
}

#[test]
fn parse_mailto_recipients_and_headers() {
    let msg = parse_mailto("user@example.com?subject=Hi&cc=a@b.com,c@d.com").unwrap();
    assert_eq!(msg.to, strings(&["user@example.com"]));
    assert_eq!(msg.cc, strings(&["a@b.com", "c@d.com"]));
    assert!(msg.bcc.is_empty());
    assert_eq!(msg.body, None);
    assert_eq!(msg.headers.len(), 1);
    assert!(matches!(&msg.headers[0].0, HeaderName::Rfc(name) if name == "Subject"));
    assert_eq!(msg.headers[0].1, "Hi");
}

#[test]
fn parse_mailto_body_and_other_header() {
    let msg = parse_mailto("a@b.c?BODY=hello%20there&X-Custom=1&bcc=d@e.f").unwrap();
    assert_eq!(msg.to, strings(&["a@b.c"]));
    assert_eq!(msg.bcc, strings(&["d@e.f"]));
    assert_eq!(msg.body, Some("hello there".to_string()));
    assert_eq!(msg.headers.len(), 1);
    assert!(matches!(&msg.headers[0].0, HeaderName::Other(name) if name == "X-Custom"));
    assert_eq!(msg.headers[0].1, "1");
}

#[test]
fn parse_mailto_suppresses_duplicates() {
    let msg = parse_mailto("a@b.c,A@B.C?cc=a@B.c,x@y.z").unwrap();
    assert_eq!(msg.to, strings(&["a@b.c"]));
    assert_eq!(msg.cc, strings(&["x@y.z"]));
}

#[test]
fn parse_mailto_strips_whitespace_outside_escapes() {
    let msg = parse_mailto(" a @b.c ?sub ject=x y%20z").unwrap();
    assert_eq!(msg.to, strings(&["a@b.c"]));
    assert_eq!(msg.headers[0].0.as_str(), "Subject");
    assert_eq!(msg.headers[0].1, "xy z");
}

#[test]
fn parse_mailto_escaped_comma_and_at_in_address() {
    let msg = parse_mailto("a%40b.c%2Cd@e.f").unwrap();
    assert_eq!(msg.to, strings(&["a@b.c", "d@e.f"]));
    assert!(parse_mailto("%40b.c").is_none());
}

#[test]
fn parse_mailto_rejects_malformed() {
    assert!(parse_mailto("").is_none());
    assert!(parse_mailto("no-at-sign").is_none());
    assert!(parse_mailto("a,b@c.d").is_none());
    assert!(parse_mailto("a@b@c").is_none());
    assert!(parse_mailto("@b.c").is_none());
    assert!(parse_mailto("a@b.c?=x").is_none());
    assert!(parse_mailto("a@b.c?na!me=x").is_none());
    assert!(parse_mailto("a@b.c?x=1&&y=2").is_none());
    assert!(parse_mailto("a@b.c%zz").is_none());
    assert!(parse_mailto("a@b.c%4").is_none());
    assert!(parse_mailto("a@b.c%ff").is_none());
}

#[test]
fn parse_mailto_requires_a_recipient() {
    assert!(parse_mailto("?subject=Hi").is_none());
    let msg = parse_mailto("?to=a@b.c").unwrap();
    assert_eq!(msg.to, strings(&["a@b.c"]));
    let msg = parse_mailto("?to=a@b.c&subject=Hi").unwrap();
    assert_eq!(msg.to, strings(&["a@b.c"]));
    assert_eq!(msg.headers[0].1, "Hi");
}

#[test]
fn parse_mailto_lone_parameter_name_is_header_without_value() {
    let msg = parse_mailto("a@b.c?flag").unwrap();
    assert!(matches!(&msg.headers[0].0, HeaderName::Other(name) if name == "flag"));
    assert_eq!(msg.headers[0].1, "");
}

#[test]
fn parse_mailto_empty_value_is_dropped() {
    let msg = parse_mailto("a@b.c?subject=&body=x").unwrap();
    assert!(msg.headers.is_empty());
    assert_eq!(msg.body, Some("x".to_string()));
}

#[test]
fn insert_address_skips_known_address() {
    let mut msg = MailtoMessage {
        to: strings(&["a@b.c"]),
        cc: Vec::new(),
        bcc: Vec::new(),
        body: None,
        headers: Vec::new(),
    };
    insert_address(&mut msg, AddressField::Cc, "A@b.C".to_string());
    assert!(msg.cc.is_empty());
    insert_address(&mut msg, AddressField::Bcc, "d@e.f".to_string());
    assert_eq!(msg.bcc, strings(&["d@e.f"]));
}

#[test]
fn parse_uri_splits_at_first_colon() {
    assert_eq!(parse_uri("mailto:a@b.c"), Some(("mailto", "a@b.c")));
    assert_eq!(parse_uri("xmpp:user@host:5222"), Some(("xmpp", "user@host:5222")));
    assert_eq!(parse_uri(":x"), Some(("", "x")));
    assert_eq!(parse_uri("mailto:"), None);
    assert_eq!(parse_uri("mailto"), None);
    assert_eq!(parse_uri(""), None);
}

#[test]
fn validate_uri_checks_mailto_only() {
    assert_eq!(validate_uri("MAILTO:a@b.c"), Some("MAILTO"));
    assert_eq!(validate_uri("mailto:nobody"), None);
    assert_eq!(validate_uri("tel:+123"), Some("tel"));
    assert_eq!(validate_uri("tel"), None);
}
