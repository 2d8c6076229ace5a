use sieve::compiler::error::Capability;
use sieve::compiler::predicates::{MimeOpts, TestAddress, TestHeader, TestString, AddressPart};
use sieve::compiler::state::{Invalid, Test, TestIhave, TestMailboxExists};
use sieve::compiler::tokens::{Fragment, StringItem};
use sieve::mailto::HeaderName;
use sieve::runtime::comparator::{Comparator, MatchType, NumericOrder, Order, RelationalMatch};
use sieve::runtime::context::{Context, Runtime, Variables};
use sieve::runtime::evaluate::{parse_header_name, Event, RuntimeError, TestResult};
use sieve::runtime::matching::Numbers;
use sieve::runtime::message::{ContentType, Header, HeaderValue, Message, MessagePart};

fn constant(s: &str) -> StringItem {
    StringItem::Text(s.to_string())
}

fn constants(items: &[&str]) -> Vec<StringItem> {
    items.iter().map(|s| constant(s)).collect()
}

fn strings(items: &[&str]) -> Vec<String> {
    items.iter().map(|s| s.to_string()).collect()
}

fn raw() -> Vec<u8> {
    b"Subject: kept\nX-Tag:  Hello\n World \nContent-Type: text/plain; charset=\"utf-8\"; name=a.txt\nX-Tag: second\n\nbody".to_vec()
}

fn offsets(needle: &str) -> (usize, usize) {
    let text = String::from_utf8(raw()).unwrap();
    let start = text.find(needle).unwrap();
    (start, start + needle.len())
}

fn message() -> Message {
    let (s1, e1) = offsets(" kept\n");
    let (s2, e2) = offsets("  Hello\n World \n");
    let (s3, e3) = offsets(" text/plain; charset=\"utf-8\"; name=a.txt\n");
    let (s4, e4) = offsets(" second\n");
    Message {
        parts: vec![MessagePart {
            headers: vec![
                Header {
                    name: HeaderName::Rfc("Subject".to_string()),
                    value: HeaderValue::Text("kept".to_string()),
                    offset_start: s1,
                    offset_end: e1,
                },
                Header {
                    name: HeaderName::Other("X-Tag".to_string()),
                    value: HeaderValue::Text("cached".to_string()),
                    offset_start: s2,
                    offset_end: e2,
                },
                Header {
                    name: HeaderName::Rfc("Content-Type".to_string()),
                    value: HeaderValue::ContentType(ContentType {
                        c_type: "text".to_string(),
                        c_subtype: Some("plain".to_string()),
                        attributes: Some(vec![
                            ("charset".to_string(), "utf-8".to_string()),
                            ("name".to_string(), "a.txt".to_string()),
                        ]),
                    }),
                    offset_start: s3,
                    offset_end: e3,
                },
                Header {
                    name: HeaderName::Other("x-tag".to_string()),
                    value: HeaderValue::Text("second".to_string()),
                    offset_start: s4,
                    offset_end: e4,
                },
                Header {
                    name: HeaderName::Other("X-Added".to_string()),
                    value: HeaderValue::Text("multipart/mixed; boundary=xyz".to_string()),
                    offset_start: 0,
                    offset_end: 0,
                },
            ],
            sub_parts: Vec::new(),
        }],
        raw_message: raw(),
    }
}

fn context() -> Context {
    Context {
        message: message(),
        part: 0,
        vars: Variables { named: Vec::new(), matched: vec!["old".to_string()] },
        runtime: Runtime {
            max_redirects: 1,
            hostname: "localhost".to_string(),
            allowed_capabilities: vec![Capability::Copy, Capability::Regex],
        },
        user_address: String::new(),
        user_full_name: String::new(),
        current_time: 0,
        actions: Vec::new(),
        messages: Vec::new(),
        has_changes: false,
        edited_message: Vec::new(),
    }
}

fn header_test(names: &[&str], keys: &[&str], match_type: MatchType) -> TestHeader {
    TestHeader {
        header_list: constants(names),
        key_list: constants(keys),
        match_type,
        comparator: Comparator::AsciiCaseMap,
        index: None,
        mime_opts: MimeOpts::Absent,
        mime_anychild: false,
        is_not: false,
    }
}

#[test]
fn header_names_are_read_as_the_parser_reads_them() {
    assert!(matches!(parse_header_name("subject".to_string()), HeaderName::Rfc(n) if n == "Subject"));
    assert!(matches!(parse_header_name("MESSAGE-id".to_string()), HeaderName::Rfc(n) if n == "Message-ID"));
    assert!(matches!(parse_header_name("X-Tag".to_string()), HeaderName::Other(n) if n == "X-Tag"));
    assert!(matches!(parse_header_name("not a name".to_string()), HeaderName::Other(n) if n == "not a name"));
}

#[test]
fn header_values_plain_text() {
    let msg = message();
    let headers = &msg.parts[0].headers;
    assert_eq!(msg.find_header_values(&headers[0], &MimeOpts::Absent), strings(&["kept"]));
    assert_eq!(msg.find_header_values(&headers[1], &MimeOpts::Absent), strings(&["Hello World"]));
    assert_eq!(
        msg.find_header_values(&headers[4], &MimeOpts::Absent),
        strings(&["multipart/mixed; boundary=xyz"])
    );
    let broken = Header {
        name: HeaderName::Other("X".to_string()),
        value: HeaderValue::Text("x".to_string()),
        offset_start: 50,
        offset_end: 5000,
    };
    assert_eq!(msg.find_header_values(&broken, &MimeOpts::Absent), strings(&[""]));
    let added_other = Header {
        name: HeaderName::Other("X".to_string()),
        value: HeaderValue::Empty,
        offset_start: 0,
        offset_end: 0,
    };
    assert!(msg.find_header_values(&added_other, &MimeOpts::Absent).is_empty());
}

#[test]
fn header_values_mime_views() {
    let msg = message();
    let headers = &msg.parts[0].headers;
    let ct = &headers[2];
    assert_eq!(msg.find_header_values(ct, &MimeOpts::Type), strings(&["text"]));
    assert_eq!(msg.find_header_values(ct, &MimeOpts::Subtype), strings(&["plain"]));
    assert_eq!(msg.find_header_values(ct, &MimeOpts::ContentType), strings(&["text/plain"]));
    assert_eq!(
        msg.find_header_values(ct, &MimeOpts::Param(strings(&["NAME", "missing", "charset"]))),
        strings(&["a.txt", "utf-8", ""])
    );
    assert_eq!(msg.find_header_values(&headers[0], &MimeOpts::Type), strings(&[""]));
    let added = &headers[4];
    assert_eq!(msg.find_header_values(added, &MimeOpts::Type), strings(&["multipart"]));
    assert_eq!(msg.find_header_values(added, &MimeOpts::Subtype), strings(&["mixed"]));
    assert_eq!(
        msg.find_header_values(added, &MimeOpts::Param(strings(&["boundary"]))),
        strings(&["xyz", ""])
    );
}

#[test]
fn header_test_matches_any_value_against_any_key() {
    let mut ctx = context();
    let numbers = Numbers::new();
    let test = header_test(&["x-tag"], &["nothing", "SECOND"], MatchType::Is);
    assert_eq!(test.subjects(&ctx), strings(&["Hello World", "second"]));
    assert!(test.exec(&mut ctx, &numbers));
    let mut negated = header_test(&["x-tag"], &["nothing", "SECOND"], MatchType::Is);
    negated.is_not = true;
    assert!(!negated.exec(&mut ctx, &numbers));
    let mut octet = header_test(&["x-tag"], &["SECOND"], MatchType::Is);
    octet.comparator = Comparator::Octet;
    assert!(!octet.exec(&mut ctx, &numbers));
    assert!(header_test(&["X-Tag"], &["lo wo"], MatchType::Contains).exec(&mut ctx, &numbers));
    assert!(!header_test(&["X-None"], &[""], MatchType::Contains).exec(&mut ctx, &numbers));
    assert!(!header_test(&["X-Tag"], &["second"], MatchType::List).exec(&mut ctx, &numbers));
    assert_eq!(ctx.vars.matched, strings(&["old"]));
}

#[test]
fn header_test_with_index_looks_at_one_header() {
    let mut ctx = context();
    let numbers = Numbers::new();
    let mut test = header_test(&["X-Tag"], &["second"], MatchType::Is);
    test.index = Some(1);
    assert!(!test.exec(&mut ctx, &numbers));
    test.index = Some(-1);
    assert!(test.exec(&mut ctx, &numbers));
    test.index = Some(2);
    assert!(test.exec(&mut ctx, &numbers));
    test.index = Some(3);
    assert!(!test.exec(&mut ctx, &numbers));
}

#[test]
fn header_test_publishes_captures() {
    let mut ctx = context();
    let numbers = Numbers::new();
    let test = header_test(&["X-Tag"], &["nope*", "h* w*"], MatchType::Matches(0b1100));
    assert!(test.exec(&mut ctx, &numbers));
    assert_eq!(ctx.vars.matched, strings(&["", "", "orld"]));
    let test = header_test(&["X-Tag"], &["^(s)(e)"], MatchType::Regex(0b10));
    assert!(test.exec(&mut ctx, &numbers));
    assert_eq!(ctx.vars.matched, strings(&["", "s"]));
    let test = header_test(&["X-Tag"], &["zzz*"], MatchType::Matches(0b10));
    assert!(!test.exec(&mut ctx, &numbers));
    assert_eq!(ctx.vars.matched, strings(&["", "s"]));
    let test = header_test(&["X-Tag"], &["second"], MatchType::Matches(0b10));
    assert!(test.exec(&mut ctx, &numbers));
    assert_eq!(ctx.vars.matched, strings(&["", "s"]));
}

#[test]
fn header_test_numeric_goes_by_the_numbers_given() {
    let mut ctx = context();
    let mut test = header_test(&["X-Tag"], &["7"], MatchType::Value(RelationalMatch::Gt));
    test.comparator = Comparator::AsciiNumeric;
    assert!(!test.exec(&mut ctx, &Numbers::new()));
    let numbers = Numbers {
        pairs: vec![vec![NumericOrder::NotNumbers], vec![NumericOrder::Ordered(Order::Greater)]],
        counts: Vec::new(),
    };
    assert!(test.exec(&mut ctx, &numbers));
}

#[test]
fn header_test_counts() {
    let mut ctx = context();
    let test = header_test(&["X-Tag", "Subject"], &["2", "3"], MatchType::Count(RelationalMatch::Eq));
    assert_eq!(test.count(&ctx), 3);
    let numbers = Numbers {
        pairs: Vec::new(),
        counts: vec![NumericOrder::Ordered(Order::Greater), NumericOrder::Ordered(Order::Equal)],
    };
    assert!(test.exec(&mut ctx, &numbers));
    assert!(!test.exec(&mut ctx, &Numbers::new()));
    let mut mime = header_test(&["Content-Type", "Subject"], &["1"], MatchType::Count(RelationalMatch::Eq));
    mime.mime_opts = MimeOpts::Type;
    assert_eq!(mime.count(&ctx), 1);
    mime.mime_opts = MimeOpts::Param(constants(&["CHARSET", "name", "x"]));
    assert_eq!(mime.count(&ctx), 2);
    mime.mime_opts = MimeOpts::Param(constants(&["x"]));
    assert_eq!(mime.count(&ctx), 0);
}

#[test]
fn string_test_matches_and_publishes() {
    let mut vars = Variables {
        named: vec![("name".to_string(), "Value".to_string())],
        matched: Vec::new(),
    };
    let test = TestString {
        match_type: MatchType::Matches(0b11),
        comparator: Comparator::Octet,
        source: vec![
            constant("other"),
            StringItem::Parts(vec![Fragment::Text("the ".to_string()), Fragment::Variable("NAME".to_string())]),
        ],
        key_list: constants(&["x*", "the *"]),
    };
    assert!(test.exec(&mut vars, &Numbers::new()));
    assert_eq!(vars.matched, strings(&["the Value", "Value"]));
    let test = TestString {
        match_type: MatchType::Is,
        comparator: Comparator::Octet,
        source: constants(&["a"]),
        key_list: constants(&["A"]),
    };
    assert!(!test.exec(&mut vars, &Numbers::new()));
    assert_eq!(vars.matched, strings(&["the Value", "Value"]));
}

#[test]
fn match_variables_are_put_at_their_numbers() {
    let mut vars = Variables { named: Vec::new(), matched: strings(&["a", "b", "c", "d", "e"]) };
    vars.set_match_variables(vec![(3, "three".to_string()), (1, "one".to_string())]);
    assert_eq!(vars.matched, strings(&["", "one", "", "three"]));
    vars.set_match_variables(Vec::new());
    assert!(vars.matched.is_empty());
}

#[test]
fn test_dispatch() {
    let mut ctx = context();
    let numbers = Numbers::new();
    assert!(matches!(Test::True.exec(&mut ctx, &numbers), TestResult::Bool(true)));
    assert!(matches!(Test::False.exec(&mut ctx, &numbers), TestResult::Bool(false)));
    let have = |capabilities: Vec<Capability>, is_not: bool| Test::Ihave(TestIhave { capabilities, is_not });
    assert!(matches!(have(vec![Capability::Regex, Capability::Copy], false).exec(&mut ctx, &numbers), TestResult::Bool(true)));
    assert!(matches!(have(vec![Capability::Regex, Capability::Mime], false).exec(&mut ctx, &numbers), TestResult::Bool(false)));
    assert!(matches!(have(vec![Capability::Mime], true).exec(&mut ctx, &numbers), TestResult::Bool(true)));
    assert!(matches!(have(Vec::new(), false).exec(&mut ctx, &numbers), TestResult::Bool(true)));
    let mailbox = Test::MailboxExists(TestMailboxExists {
        mailbox_names: constants(&["INBOX", "Drafts"]),
        is_not: true,
    });
    match mailbox.exec(&mut ctx, &numbers) {
        TestResult::Event { event: Event::MailboxExists { names }, is_not } => {
            assert_eq!(names, strings(&["INBOX", "Drafts"]));
            assert!(is_not);
        }
        other => panic!("unexpected {:?}", other),
    }
    let invalid = Test::Invalid(Invalid { name: "bogus".to_string(), line_num: 4, line_pos: 2 });
    match invalid.exec(&mut ctx, &numbers) {
        TestResult::Error(RuntimeError::InvalidInstruction(i)) => {
            assert_eq!(i.name, "bogus");
            assert_eq!((i.line_num, i.line_pos), (4, 2));
        }
        other => panic!("unexpected {:?}", other),
    }
    let address = Test::Address(TestAddress {
        header_list: constants(&["To"]),
        key_list: constants(&["x"]),
        address_part: AddressPart::All,
        match_type: MatchType::Is,
        comparator: Comparator::Octet,
        index: None,
        mime: false,
        mime_anychild: false,
        list: false,
    });
    assert!(matches!(address.exec(&mut ctx, &numbers), TestResult::Error(RuntimeError::NotSupported)));
    let header = Test::Header(header_test(&["subject"], &["KEPT"], MatchType::Is));
    assert!(matches!(header.exec(&mut ctx, &numbers), TestResult::Bool(true)));
}
