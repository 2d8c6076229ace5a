use sieve::mailto::HeaderName;
use sieve::runtime::context::{Context, Runtime, Variables};
use sieve::runtime::headers::header_name_eq;
use sieve::runtime::message::{Header, HeaderValue, Message, MessagePart};

fn rfc(name: &str) -> HeaderName {
    HeaderName::Rfc(name.to_string())
}

fn other(name: &str) -> HeaderName {
    HeaderName::Other(name.to_string())
}

fn header(name: HeaderName, value: &str) -> Header {
    Header { name, value: HeaderValue::Text(value.to_string()), offset_start: 0, offset_end: 0 }
}

fn context(parts: Vec<MessagePart>, part: usize) -> Context {
    Context {
        message: Message { parts, raw_message: Vec::new() },
        part,
        vars: Variables { named: Vec::new(), matched: Vec::new() },
        runtime: Runtime { max_redirects: 1, hostname: "localhost".to_string(), allowed_capabilities: Vec::new() },
        user_address: String::new(),
        user_full_name: String::new(),
        current_time: 0,
        actions: Vec::new(),
        messages: Vec::new(),
        has_changes: false,
        edited_message: Vec::new(),
    }
}

fn three_x() -> Context {
    context(
        vec![MessagePart {
            headers: vec![
                header(other("X"), "one"),
                header(rfc("Subject"), "s"),
                header(other("x"), "two"),
                header(other("Y"), "y"),
                header(other("X"), "three"),
            ],
            sub_parts: Vec::new(),
        }],
        0,
    )
}

#[test]
fn header_names_compare_as_the_parser_does() {
    assert!(header_name_eq(&rfc("Subject"), &rfc("Subject")));
    assert!(!header_name_eq(&rfc("Subject"), &rfc("To")));
    assert!(header_name_eq(&other("X-Tag"), &other("x-tAG")));
    assert!(!header_name_eq(&other("Subject"), &rfc("Subject")));
}

#[test]
fn index_one_selects_first_and_minus_one_last() {
    let ctx = three_x();
    let names = vec![other("X")];
    assert_eq!(ctx.header_candidates(&names, Some(1), false), vec![(0, 0)]);
    assert_eq!(ctx.header_candidates(&names, Some(-1), false), vec![(0, 4)]);
    assert_eq!(ctx.header_candidates(&names, Some(2), false), vec![(0, 2)]);
    assert_eq!(ctx.header_candidates(&names, Some(-2), false), vec![(0, 2)]);
    assert_eq!(ctx.header_candidates(&names, Some(3), false), vec![(0, 4)]);
    assert_eq!(ctx.header_candidates(&names, Some(-3), false), vec![(0, 0)]);
}

#[test]
fn index_beyond_the_occurrences_selects_nothing() {
    let ctx = three_x();
    let names = vec![other("X")];
    assert!(ctx.header_candidates(&names, Some(4), false).is_empty());
    assert!(ctx.header_candidates(&names, Some(-4), false).is_empty());
    assert!(ctx.header_candidates(&names, Some(0), false).is_empty());
    assert!(ctx.header_candidates(&names, Some(i32::MIN), false).is_empty());
    assert!(ctx.header_candidates(&names, Some(i32::MAX), false).is_empty());
}

#[test]
fn without_index_all_occurrences_in_document_order() {
    let ctx = three_x();
    assert_eq!(
        ctx.header_candidates(&vec![other("X")], None, false),
        vec![(0, 0), (0, 2), (0, 4)]
    );
    assert_eq!(
        ctx.header_candidates(&vec![other("Y"), rfc("Subject"), other("Z"), other("x")], None, false),
        vec![(0, 3), (0, 1), (0, 0), (0, 2), (0, 4)]
    );
    assert!(ctx.header_candidates(&Vec::new(), None, false).is_empty());
}

fn nested() -> Vec<MessagePart> {
    let part = |value: &str, sub_parts: Vec<usize>| MessagePart {
        headers: vec![header(other("X"), value)],
        sub_parts,
    };
    vec![
        part("root", vec![1, 4]),
        part("first", vec![2, 3]),
        part("first-a", Vec::new()),
        part("first-b", vec![1, 0, 9]),
        part("second", Vec::new()),
    ]
}

#[test]
fn any_child_walks_the_parts_below() {
    let names = vec![other("X")];
    let ctx = context(nested(), 0);
    assert_eq!(ctx.header_candidates(&names, None, false), vec![(0, 0)]);
    assert_eq!(
        ctx.header_candidates(&names, None, true),
        vec![(0, 0), (1, 0), (2, 0), (3, 0), (4, 0)]
    );
    let ctx = context(nested(), 1);
    assert_eq!(ctx.header_candidates(&names, None, true), vec![(1, 0), (2, 0), (3, 0)]);
    let ctx = context(nested(), 7);
    assert!(ctx.header_candidates(&names, None, true).is_empty());
    assert!(ctx.header_candidates(&names, None, false).is_empty());
}

#[test]
fn find_headers_stops_at_first_yes() {
    let ctx = three_x();
    let names = vec![other("X")];
    let seen = std::cell::RefCell::new(Vec::new());
    let found = ctx.find_headers(&names, None, false, |h: &Header, part: usize, pos: usize| {
        seen.borrow_mut().push((part, pos));
        matches!(&h.value, HeaderValue::Text(t) if t == "two")
    });
    assert!(found);
    assert_eq!(*seen.borrow(), vec![(0, 0), (0, 2)]);
    let found = ctx.find_headers(&names, Some(-1), false, |h: &Header, _: usize, _: usize| {
        matches!(&h.value, HeaderValue::Text(t) if t == "two")
    });
    assert!(!found);
    let found = ctx.find_headers(&names, Some(-1), false, |h: &Header, _: usize, _: usize| {
        matches!(&h.value, HeaderValue::Text(t) if t == "three")
    });
    assert!(found);
}
