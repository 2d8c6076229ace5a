use sieve::compiler::notify::Notify as NotifyAction;
use sieve::compiler::redirect::{ByMode, ByTime, Notify, NotifyItem, Redirect, Ret};
use sieve::compiler::tokens::{Fragment, StringItem};
use sieve::mailto::HeaderName;
use sieve::runtime::context::{
    Action, Context, FileCarbonCopy, Importance, Recipient, Runtime, Variables,
};
use sieve::runtime::date::{parse_absolute_limit, DateTime};
use sieve::runtime::message::{Header, HeaderValue, Message, MessagePart};
use sieve::runtime::notify::marked_auto_submitted;

fn constant(s: &str) -> StringItem {
    StringItem::Text(s.to_string())
}

fn header(name: HeaderName, value: &str) -> Header {
    Header { name, value: HeaderValue::Text(value.to_string()), offset_start: 0, offset_end: 0 }
}

fn context(headers: Vec<Header>, max_redirects: usize) -> Context {
    Context {
        message: Message {
            parts: vec![MessagePart { headers, sub_parts: Vec::new() }],
            raw_message: Vec::new(),
        },
        part: 0,
        vars: Variables {
            named: vec![("Target".to_string(), "x@y.z".to_string())],
            matched: vec!["zero".to_string(), "one".to_string()],
        },
        runtime: Runtime { max_redirects, hostname: "mx.example.org".to_string(), allowed_capabilities: Vec::new() },
        user_address: "me@example.org".to_string(),
        user_full_name: "My Name".to_string(),
        current_time: 0,
        actions: Vec::new(),
        messages: Vec::new(),
        has_changes: false,
        edited_message: b"edited".to_vec(),
    }
}

fn redirect(address: StringItem) -> Redirect {
    Redirect {
        copy: true,
        address,
        notify: Notify::Items(vec![NotifyItem::Failure]),
        return_of_content: Ret::Hdrs,
        by_time: ByTime::Unlimited,
        list: false,
    }
}

fn count_redirects(ctx: &Context) -> usize {
    ctx.actions.iter().filter(|a| matches!(a, Action::Redirect { .. })).count()
}

#[test]
fn eval_string_puts_pieces_together() {
    let ctx = context(Vec::new(), 1);
    let item = StringItem::Parts(vec![
        Fragment::Text("to ".to_string()),
        Fragment::Variable("target".to_string()),
        Fragment::Text(" / ".to_string()),
        Fragment::Match(1),
        Fragment::Match(7),
        Fragment::Variable("unset".to_string()),
        Fragment::Text("!".to_string()),
    ]);
    assert_eq!(ctx.vars.eval_string(&item), "to x@y.z / one!");
    assert_eq!(ctx.vars.eval_string(&constant("${x}")), "${x}");
}

#[test]
fn redirect_pushes_sanitized_address() {
    let mut ctx = context(Vec::new(), 2);
    redirect(constant("Jane <jane@example.com>")).exec(&mut ctx);
    assert_eq!(ctx.actions.len(), 1);
    match &ctx.actions[0] {
        Action::Redirect { address, copy, notify, return_of_content, by_time } => {
            assert_eq!(address, "jane@example.com");
            assert!(*copy);
            assert!(matches!(notify, Notify::Items(items) if items == &vec![NotifyItem::Failure]));
            assert_eq!(*return_of_content, Ret::Hdrs);
            assert!(matches!(by_time, ByTime::Unlimited));
        }
        other => panic!("unexpected {:?}", other),
    }
}

#[test]
fn redirect_skips_malformed_address() {
    let mut ctx = context(Vec::new(), 2);
    redirect(constant("not-an-address")).exec(&mut ctx);
    assert!(ctx.actions.is_empty());
}

#[test]
fn redirect_count_never_exceeds_limit() {
    let mut ctx = context(Vec::new(), 2);
    for _ in 0..5 {
        redirect(constant("a@b.c")).exec(&mut ctx);
    }
    assert_eq!(count_redirects(&ctx), 2);
    assert_eq!(ctx.count_redirects(), 2);
    assert_eq!(ctx.actions.len(), 2);

    let mut ctx = context(Vec::new(), 0);
    redirect(constant("a@b.c")).exec(&mut ctx);
    assert!(ctx.actions.is_empty());
}

#[test]
fn redirect_hands_out_pending_edits_first() {
    let mut ctx = context(Vec::new(), 3);
    ctx.has_changes = true;
    redirect(constant("a@b.c")).exec(&mut ctx);
    assert_eq!(ctx.actions.len(), 2);
    assert!(matches!(&ctx.actions[0], Action::UpdateMessage { bytes } if bytes == b"edited"));
    assert!(matches!(&ctx.actions[1], Action::Redirect { .. }));
    assert!(!ctx.has_changes);
    redirect(constant("d@e.f")).exec(&mut ctx);
    assert_eq!(ctx.actions.len(), 3);
    assert!(matches!(&ctx.actions[2], Action::Redirect { address, .. } if address == "d@e.f"));
}

#[test]
fn redirect_keeps_pending_edits_when_nothing_is_pushed() {
    let mut ctx = context(Vec::new(), 0);
    ctx.has_changes = true;
    redirect(constant("a@b.c")).exec(&mut ctx);
    assert!(ctx.actions.is_empty());
    assert!(ctx.has_changes);
}

#[test]
fn redirect_resolves_time_limits() {
    let mut ctx = context(Vec::new(), 5);
    let mut r = redirect(constant("a@b.c"));
    r.by_time = ByTime::Relative { rlimit: 60, mode: ByMode::Notify, trace: true };
    r.exec(&mut ctx);
    assert!(matches!(
        &ctx.actions[0],
        Action::Redirect { by_time: ByTime::Relative { rlimit: 60, mode: ByMode::Notify, trace: true }, .. }
    ));
    r.by_time = ByTime::Absolute {
        alimit: constant("1970-01-02T00:00:00Z"),
        mode: ByMode::Return,
        trace: false,
    };
    r.exec(&mut ctx);
    assert!(matches!(
        &ctx.actions[1],
        Action::Redirect { by_time: ByTime::Absolute { alimit: 86400, mode: ByMode::Return, trace: false }, .. }
    ));
    r.by_time = ByTime::Absolute { alimit: constant("tomorrow"), mode: ByMode::Default, trace: false };
    r.exec(&mut ctx);
    assert!(matches!(
        &ctx.actions[2],
        Action::Redirect { by_time: ByTime::Absolute { alimit: 0, .. }, .. }
    ));
}

#[test]
fn absolute_limit_is_timestamp_of_valid_date() {
    assert_eq!(parse_absolute_limit("2004-06-28T23:43:45.000Z"), 1088466225);
    assert_eq!(parse_absolute_limit("1969-02-13T23:32:00-03:30"), -27723480);
    assert_eq!(parse_absolute_limit("2004-13-28T23:43:45Z"), 0);
    assert_eq!(parse_absolute_limit("1800-01-01T00:00:00Z"), 0);
    assert_eq!(parse_absolute_limit(""), 0);
}

#[test]
fn date_validity_checks_every_field() {
    let date = DateTime {
        year: 2022,
        month: 12,
        day: 31,
        hour: 23,
        minute: 59,
        second: 59,
        tz_before_gmt: true,
        tz_hour: 23,
        tz_minute: 59,
    };
    assert!(date.is_valid());
    assert!(!DateTime { year: 1899, ..date }.is_valid());
    assert!(!DateTime { year: 3001, ..date }.is_valid());
    assert!(!DateTime { month: 0, ..date }.is_valid());
    assert!(!DateTime { month: 13, ..date }.is_valid());
    assert!(!DateTime { day: 0, ..date }.is_valid());
    assert!(!DateTime { day: 32, ..date }.is_valid());
    assert!(!DateTime { hour: 24, ..date }.is_valid());
    assert!(!DateTime { minute: 60, ..date }.is_valid());
    assert!(!DateTime { second: 60, ..date }.is_valid());
    assert!(!DateTime { tz_hour: 24, ..date }.is_valid());
    assert!(!DateTime { tz_minute: 60, ..date }.is_valid());
}

fn notify(method: &str) -> NotifyAction {
    NotifyAction {
        from: None,
        importance: None,
        options: Vec::new(),
        message: None,
        fcc: None,
        method: constant(method),
    }
}

#[test]
fn notify_mailto_generates_message() {
    let mut ctx = context(
        vec![header(HeaderName::Rfc("Subject".to_string()), "Original subject")],
        1,
    );
    let action = notify("mailto:boss@example.com,Other <other@example.com>?cc=c@example.com&bcc=hidden@example.com&X-Tag=42");
    action.notify_with_id(&mut ctx, b"<id@host>".to_vec());
    assert_eq!(ctx.messages.len(), 1);
    let expected = "From: \"My Name\" <me@example.org>\r\n\
        To: <boss@example.com>, Other<other@example.com>\r\n\
        Cc: <c@example.com>\r\n\
        X-Tag: 42\r\n\
        Date: Thu, 1 Jan 1970 00:00:00 +0000\r\n\
        Message-ID: <id@host>\r\n\
        Importance: Normal\r\n\
        X-Priority: 3 (Normal)\r\n\
        Subject: Original subject\r\n\
        Auto-Submitted: auto-notified\r\n\
        X-Sieve: yes\r\n\
        Content-type: text/plain; charset=utf-8\r\n\r\n\
        Original subject";
    assert_eq!(String::from_utf8(ctx.messages[0].clone()).unwrap(), expected);
    assert_eq!(ctx.actions.len(), 1);
    match &ctx.actions[0] {
        Action::SendMessage { recipient, notify, return_of_content, by_time, message_id, fcc } => {
            match recipient {
                Recipient::Group(list) => assert_eq!(
                    list,
                    &vec![
                        "boss@example.com".to_string(),
                        "other@example.com".to_string(),
                        "c@example.com".to_string(),
                        "hidden@example.com".to_string()
                    ]
                ),
                other => panic!("unexpected {:?}", other),
            }
            assert!(matches!(notify, Notify::Never));
            assert_eq!(*return_of_content, Ret::Default);
            assert!(matches!(by_time, ByTime::Unlimited));
            assert_eq!(*message_id, 0);
            assert!(fcc.is_none());
        }
        other => panic!("unexpected {:?}", other),
    }
}

#[test]
fn notify_mailto_uses_uri_headers_script_message_and_importance() {
    let mut ctx = context(Vec::new(), 1);
    let mut action = notify("MailTo:a@b.c?subject=From%20URI&body=Body%20text&date=now&message-id=given&from=nobody");
    action.from = Some(constant("Alias <ME@example.org>"));
    action.importance = Some(constant("1"));
    action.message = Some(constant("Script message"));
    action.notify_with_id(&mut ctx, b"<unused>".to_vec());
    let expected = "From: Alias <ME@example.org>\r\n\
        To: <a@b.c>\r\n\
        Date: now\r\n\
        Message-ID: given\r\n\
        Importance: High\r\n\
        X-Priority: 1 (High)\r\n\
        Subject: From URI\r\n\
        Auto-Submitted: auto-notified\r\n\
        X-Sieve: yes\r\n\
        Content-type: text/plain; charset=utf-8\r\n\r\n\
        Body text";
    assert_eq!(String::from_utf8(ctx.messages[0].clone()).unwrap(), expected);
}

#[test]
fn notify_mailto_rejects_foreign_from_and_shortens_subject() {
    let mut ctx = context(Vec::new(), 1);
    ctx.user_full_name = String::new();
    let mut action = notify("mailto:a@b.c");
    action.from = Some(constant("someone@else.org"));
    action.importance = Some(constant("3"));
    let long: String = std::iter::repeat('x').take(300).collect();
    action.message = Some(constant(&long));
    action.notify_with_id(&mut ctx, b"<i>".to_vec());
    let text = String::from_utf8(ctx.messages[0].clone()).unwrap();
    assert!(text.starts_with("From: me@example.org\r\nTo: <a@b.c>\r\n"));
    assert!(text.contains("Importance: Low\r\nX-Priority: 5 (Low)\r\n"));
    let cut: String = std::iter::repeat('x').take(256).collect();
    assert!(text.contains(&format!("Subject: {}\u{2026}\r\n", cut)));
    assert!(text.ends_with(&format!("\r\n\r\n{}", long)));
}

#[test]
fn notify_exec_generates_fresh_message_id() {
    let mut ctx = context(Vec::new(), 1);
    notify("mailto:a@b.c").exec(&mut ctx);
    let text = String::from_utf8(ctx.messages[0].clone()).unwrap();
    let line = text.lines().find(|l| l.starts_with("Message-ID: ")).unwrap();
    assert!(line.starts_with("Message-ID: <"));
    assert!(line.ends_with("@mx.example.org>"));
    assert_eq!(ctx.actions.len(), 1);
}

#[test]
fn notify_is_suppressed_for_auto_submitted_messages() {
    let headers = vec![header(HeaderName::Other("auto-submitted".to_string()), "auto-generated")];
    assert!(marked_auto_submitted(&headers));
    let mut ctx = context(headers, 1);
    notify("mailto:a@b.c").exec(&mut ctx);
    assert!(ctx.actions.is_empty());
    assert!(ctx.messages.is_empty());

    let headers = vec![header(HeaderName::Other("Auto-Submitted".to_string()), "NO")];
    assert!(!marked_auto_submitted(&headers));
    let mut ctx = context(headers, 1);
    notify("mailto:a@b.c").exec(&mut ctx);
    assert_eq!(ctx.actions.len(), 1);

    let headers = vec![Header {
        name: HeaderName::Other("Auto-Submitted".to_string()),
        value: HeaderValue::Empty,
        offset_start: 0,
        offset_end: 0,
    }];
    assert!(marked_auto_submitted(&headers));
}

#[test]
fn notify_skips_malformed_method() {
    for method in ["mailto", "mailto:", "mailto:nobody", "mailto:?subject=x"] {
        let mut ctx = context(Vec::new(), 1);
        notify(method).exec(&mut ctx);
        assert!(ctx.actions.is_empty(), "{}", method);
        assert!(ctx.messages.is_empty(), "{}", method);
    }
}

#[test]
fn notify_other_scheme_is_handed_on() {
    let mut ctx = context(Vec::new(), 1);
    let mut action = notify("xmpp:${1}@example.com");
    action.method = StringItem::Parts(vec![
        Fragment::Text("xmpp:".to_string()),
        Fragment::Match(1),
        Fragment::Text("@example.com".to_string()),
    ]);
    action.from = Some(constant("me"));
    action.importance = Some(constant("3"));
    action.options = vec![constant("a"), constant("b")];
    action.message = Some(constant("hello"));
    action.fcc = Some(FileCarbonCopy {
        mailbox: constant("Sent"),
        mailbox_id: None,
        create: true,
        flags: vec![constant("\\Seen")],
        special_use: Some(constant("\\Sent")),
    });
    action.exec(&mut ctx);
    assert!(ctx.messages.is_empty());
    match &ctx.actions[0] {
        Action::Notify { method, from, importance, options, message, fcc } => {
            assert_eq!(method, "xmpp:one@example.com");
            assert_eq!(from.as_deref(), Some("me"));
            assert_eq!(*importance, Importance::Low);
            assert_eq!(options, &vec!["a".to_string(), "b".to_string()]);
            assert_eq!(message.as_deref(), Some("hello"));
            let fcc = fcc.as_ref().unwrap();
            assert_eq!(fcc.mailbox, "Sent");
            assert_eq!(fcc.mailbox_id, None);
            assert!(fcc.create);
            assert_eq!(fcc.flags, vec!["\\Seen".to_string()]);
            assert_eq!(fcc.special_use.as_deref(), Some("\\Sent"));
        }
        other => panic!("unexpected {:?}", other),
    }
}

#[test]
fn subject_is_last_subject_header_of_root_part() {
    let ctx = context(
        vec![
            header(HeaderName::Rfc("Subject".to_string()), "first"),
            header(HeaderName::Other("Subject".to_string()), "not this"),
            header(HeaderName::Rfc("Subject".to_string()), "second"),
            header(HeaderName::Rfc("To".to_string()), "x"),
        ],
        1,
    );
    assert_eq!(ctx.message.get_subject(), Some("second"));
    let empty = context(Vec::new(), 1);
    assert_eq!(empty.message.get_subject(), None);
}
