//! The `notify` action at run time.

use vstd::prelude::*;
use vstd::string::StringExecFns;
use vstd::utf8::encode_utf8;
use crate::compiler::notify::Notify;
use crate::compiler::redirect::{ByTime, NotifyView, Ret};
use crate::compiler::tokens::StringItem;
use crate::mailto::{texts, HeaderName, HeaderNameView, MailtoMessage, MessageView};
use crate::runtime::context::{
    Action, Context, FileCarbonCopy, Importance, Recipient, Variables,
};
use crate::runtime::message::Header;
use crate::runtime::redirect::redirect_count;
use crate::text::{
    eq_ignore_case, occurs, push_char, put_bytes, put_text, text_contains_ignore_case, text_eq,
    text_eq_ignore_case, text_has_char, text_of_range, to_chars,
};
use crate::uri::{mailto_message, parse_mailto, parse_uri, uri_parts};

verus! {

/// The most characters of a subject that a notification carries.
pub const MAX_SUBJECT_LEN: usize = 256;

/// The date header that the mail builder writes for a time given in seconds
/// from the start of 1970.
pub uninterp spec fn rfc822_date(timestamp: i64) -> Seq<char>;

/// `Date::to_rfc822` of mail_builder, on the date of the given time: the
/// text of a `Date` header for it, in universal time.
#[verifier::external_body]
fn format_date(timestamp: i64) -> (r: String)
    ensures
        r@ == rfc822_date(timestamp),
{
    mail_builder::headers::date::Date { date: timestamp }.to_rfc822()
}

/// Whether `id` has the shape of a message id for the host: in angle
/// brackets, something, an at sign, and the name of the host.
pub open spec fn is_message_id(id: Seq<u8>, hostname: Seq<char>) -> bool {
    exists|unique: Seq<u8>|
        id == seq![0x3cu8] + unique + seq![0x40u8] + encode_utf8(hostname) + seq![0x3eu8]
}

/// `generate_message_id_header` of mail_builder: a fresh message id for the
/// host, in angle brackets. What stands before the at sign is made from the
/// clock, the thread and a counter, so nothing is said of those bytes.
#[verifier::external_body]
fn generate_message_id(hostname: &str) -> (r: Vec<u8>)
    ensures
        is_message_id(r@, hostname@),
{
    let mut id = Vec::new();
    let _ = mail_builder::headers::message_id::generate_message_id_header(&mut id, hostname);
    id
}

/// The text of an optional string slice.
pub open spec fn opt_str(s: Option<&str>) -> Option<Seq<char>> {
    match s {
        Some(s) => Some(s@),
        None => None,
    }
}

/// The text of an optional string.
pub open spec fn opt_text(s: Option<String>) -> Option<Seq<char>> {
    match s {
        Some(s) => Some(s@),
        None => None,
    }
}

/// Whether the header marks the message as sent by a machine: an
/// `Auto-Submitted` header whose value is not the text `no`.
pub open spec fn is_auto_submitted(h: Header) -> bool {
    &&& h.name@ matches HeaderNameView::Other(name)
    &&& eq_ignore_case(name, "Auto-Submitted"@)
    &&& match h.value.text() {
        Some(v) => !eq_ignore_case(v, "no"@),
        None => true,
    }
}

/// Whether one of the headers marks the message as sent by a machine.
pub open spec fn auto_submitted(headers: Seq<Header>) -> bool {
    exists|i: int| 0 <= i < headers.len() && is_auto_submitted(#[trigger] headers[i])
}

/// The sender's own `From` field: the address, after the quoted name when
/// there is one.
pub open spec fn from_field(full_name: Seq<char>, address: Seq<char>) -> Seq<char> {
    if full_name.len() > 0 {
        "\""@ + full_name + "\" <"@ + address + ">"@
    } else {
        address
    }
}

/// The `From` field of a notification: the one that the script asks for if
/// it holds the user's address, ASCII case aside, and the user's own else.
pub open spec fn sender(asked: Option<Seq<char>>, full_name: Seq<char>, address: Seq<char>) -> Seq<
    char,
> {
    match asked {
        Some(from) => if occurs(from, address, true) {
            from
        } else {
            from_field(full_name, address)
        },
        None => from_field(full_name, address),
    }
}

/// An address as it stands in a recipient list: in angle brackets unless it
/// has one already.
pub open spec fn bracketed(address: Seq<char>) -> Seq<u8> {
    if address.contains('<') {
        encode_utf8(address)
    } else {
        encode_utf8("<"@) + encode_utf8(address) + encode_utf8(">"@)
    }
}

/// The addresses of a recipient list, with a comma and a space between them.
pub open spec fn joined(addresses: Seq<Seq<char>>) -> Seq<u8>
    decreases addresses.len(),
{
    if addresses.len() == 0 {
        Seq::empty()
    } else if addresses.len() == 1 {
        bracketed(addresses[0])
    } else {
        joined(addresses.drop_last()) + encode_utf8(", "@) + bracketed(addresses.last())
    }
}

/// A header line: the label, the value, and the end of the line.
pub open spec fn line(label: Seq<char>, value: Seq<u8>) -> Seq<u8> {
    encode_utf8(label) + value + encode_utf8("\r\n"@)
}

/// The line of a recipient list; nothing for an empty list.
pub open spec fn address_line(label: Seq<char>, addresses: Seq<Seq<char>>) -> Seq<u8> {
    if addresses.len() == 0 {
        Seq::empty()
    } else {
        line(label, joined(addresses))
    }
}

/// The line of one header of the URI; nothing for `Subject` and `From`,
/// which the notification sets itself.
pub open spec fn header_line(header: (HeaderNameView, Seq<char>)) -> Seq<u8> {
    if header.0 == HeaderNameView::Rfc("Subject"@) || header.0 == HeaderNameView::Rfc("From"@) {
        Seq::empty()
    } else {
        line(header.0.text() + ": "@, encode_utf8(header.1))
    }
}

/// A header line that is left out when the URI gives the header itself.
pub open spec fn default_line(
    headers: Seq<(HeaderNameView, Seq<char>)>,
    name: Seq<char>,
    value: Seq<u8>,
) -> Seq<u8> {
    if gives_header(headers, name) {
        Seq::empty()
    } else {
        line(name + ": "@, value)
    }
}

/// The lines of the headers of the URI, in their order.
pub open spec fn header_lines(headers: Seq<(HeaderNameView, Seq<char>)>) -> Seq<u8>
    decreases headers.len(),
{
    if headers.len() == 0 {
        Seq::empty()
    } else {
        header_lines(headers.drop_last()) + header_line(headers.last())
    }
}

/// Whether the URI gives the known header `name`.
pub open spec fn gives_header(headers: Seq<(HeaderNameView, Seq<char>)>, name: Seq<char>) -> bool {
    exists|i: int| 0 <= i < headers.len() && (#[trigger] headers[i]).0 == HeaderNameView::Rfc(name)
}

/// The value of the last `Subject` header that the URI gives.
pub open spec fn given_subject(headers: Seq<(HeaderNameView, Seq<char>)>) -> Option<Seq<char>>
    decreases headers.len(),
{
    if headers.len() == 0 {
        None
    } else if headers.last().0 == HeaderNameView::Rfc("Subject"@) {
        Some(headers.last().1)
    } else {
        given_subject(headers.drop_last())
    }
}

/// The first of the three that is there, and the empty text when none is.
pub open spec fn first_of(
    a: Option<Seq<char>>,
    b: Option<Seq<char>>,
    c: Option<Seq<char>>,
) -> Seq<char> {
    match a {
        Some(t) => t,
        None => match b {
            Some(t) => t,
            None => match c {
                Some(t) => t,
                None => Seq::empty(),
            },
        },
    }
}

/// The subject cut to the most characters that a notification carries, with
/// an ellipsis where something was cut off.
pub open spec fn shortened(subject: Seq<char>) -> Seq<char> {
    if subject.len() > MAX_SUBJECT_LEN {
        subject.subrange(0, MAX_SUBJECT_LEN as int).push('\u{2026}')
    } else {
        subject
    }
}

/// The name of an importance: `1` is high, `3` is low, all else is normal.
pub open spec fn importance_name(importance: Option<Seq<char>>) -> Seq<char> {
    if importance == Some("1"@) {
        "High"@
    } else if importance == Some("3"@) {
        "Low"@
    } else {
        "Normal"@
    }
}

/// The priority that goes with an importance.
pub open spec fn priority_name(importance: Option<Seq<char>>) -> Seq<char> {
    if importance == Some("1"@) {
        "1 (High)"@
    } else if importance == Some("3"@) {
        "5 (Low)"@
    } else {
        "3 (Normal)"@
    }
}

/// The importance that a text names.
pub open spec fn importance_of(importance: Option<Seq<char>>) -> Importance {
    if importance == Some("1"@) {
        Importance::High
    } else if importance == Some("3"@) {
        Importance::Low
    } else {
        Importance::Normal
    }
}

/// What a notification is made of, besides the message of the URI.
pub struct Notice {
    /// The `From` field.
    pub from: Seq<char>,
    /// The text of a `Date` header for the time of the run.
    pub date: Seq<char>,
    /// A fresh message id.
    pub id: Seq<u8>,
    /// The importance that the script asks for.
    pub importance: Option<Seq<char>>,
    /// The message that the script gives.
    pub note: Option<Seq<char>>,
    /// The subject of the message that the script runs on.
    pub subject: Option<Seq<char>>,
}

/// The bytes of the message that notifies by mail: the sender, the
/// recipients, the headers of the URI, a date and a message id unless the
/// URI gave them, importance and priority, the subject, the marks of an
/// automatic message, and the body.
pub open spec fn notification(msg: MessageView, n: Notice) -> Seq<u8> {
    line("From: "@, encode_utf8(n.from)) + address_line("To: "@, msg.to) + address_line(
        "Cc: "@,
        msg.cc,
    ) + header_lines(msg.headers) + default_line(msg.headers, "Date"@, encode_utf8(n.date))
        + default_line(msg.headers, "Message-ID"@, n.id) + line(
        "Importance: "@,
        encode_utf8(importance_name(n.importance)),
    ) + line("X-Priority: "@, encode_utf8(priority_name(n.importance))) + line(
        "Subject: "@,
        encode_utf8(shortened(first_of(given_subject(msg.headers), n.note, n.subject))),
    ) + encode_utf8("Auto-Submitted: auto-notified\r\n"@) + encode_utf8("X-Sieve: yes\r\n"@)
        + encode_utf8("Content-type: text/plain; charset=utf-8\r\n\r\n"@) + encode_utf8(
        first_of(msg.body, n.note, n.subject),
    )
}

/// The place of the last `c` in the text, if it holds one.
pub open spec fn last_index(text: Seq<char>, c: char) -> Option<int>
    decreases text.len(),
{
    if text.len() == 0 {
        None
    } else if text.last() == c {
        Some(text.len() - 1)
    } else {
        last_index(text.drop_last(), c)
    }
}

/// The bare address of a recipient: what stands between the last `<` and the
/// last `>` after it, and the whole text when one of the two is missing.
pub open spec fn inner_address(address: Seq<char>) -> Seq<char> {
    match last_index(address, '<') {
        Some(i) => {
            let tail = address.skip(i + 1);
            match last_index(tail, '>') {
                Some(j) => tail.take(j),
                None => address,
            }
        },
        None => address,
    }
}

/// The bare addresses of all recipients: `To`, then `Cc`, then `Bcc`.
pub open spec fn recipients_of(msg: MessageView) -> Seq<Seq<char>> {
    (msg.to + msg.cc + msg.bcc).map_values(|a: Seq<char>| inner_address(a))
}

/// Appends a header line to the buffer.
fn put_line(buf: &mut Vec<u8>, label: &str, value: &[u8])
    ensures
        final(buf)@ == old(buf)@ + line(label@, value@),
{
    put_text(buf, label);
    put_bytes(buf, value);
    put_text(buf, "\r\n");
    assert(buf@ =~= old(buf)@ + line(label@, value@));
}

/// The addresses of a recipient list, as they stand in its line.
fn join_addresses(addresses: &Vec<String>) -> (r: Vec<u8>)
    ensures
        r@ == joined(texts(addresses@)),
{
    let mut buf: Vec<u8> = Vec::new();
    let ghost all = texts(addresses@);
    let mut i: usize = 0;
    while i < addresses.len()
        invariant
            i <= addresses.len(),
            all == texts(addresses@),
            buf@ == joined(all.take(i as int)),
        decreases addresses.len() - i,
    {
        let ghost before = buf@;
        let address = addresses[i].as_str();
        assert(all.take(i + 1).drop_last() == all.take(i as int));
        assert(all.take(i + 1).last() == address@);
        if i > 0 {
            put_text(&mut buf, ", ");
        }
        let ghost middle = buf@;
        if text_has_char(address, '<') {
            put_text(&mut buf, address);
        } else {
            put_text(&mut buf, "<");
            put_text(&mut buf, address);
            put_text(&mut buf, ">");
        }
        assert(buf@ =~= middle + bracketed(address@));
        proof {
            if i == 0 {
                assert(all.take(1)[0] == address@);
                assert(buf@ =~= bracketed(address@));
            } else {
                assert(buf@ =~= before + encode_utf8(", "@) + bracketed(address@));
            }
        }
        i += 1;
    }
    assert(all.take(all.len() as int) == all);
    buf
}

/// Appends the line of a recipient list to the buffer.
fn put_addresses(buf: &mut Vec<u8>, label: &str, addresses: &Vec<String>)
    ensures
        final(buf)@ == old(buf)@ + address_line(label@, texts(addresses@)),
{
    if addresses.len() > 0 {
        let list = join_addresses(addresses);
        put_line(buf, label, list.as_slice());
    } else {
        assert(buf@ =~= old(buf)@ + Seq::<u8>::empty());
    }
}

/// Appends the lines of the headers of the URI to the buffer.
fn put_headers(buf: &mut Vec<u8>, headers: &Vec<(HeaderName, String)>)
    ensures
        final(buf)@ == old(buf)@ + header_lines(crate::mailto::header_views(headers@)),
{
    let ghost all = crate::mailto::header_views(headers@);
    let mut i: usize = 0;
    assert(buf@ =~= old(buf)@ + header_lines(all.take(0)));
    while i < headers.len()
        invariant
            i <= headers.len(),
            all == crate::mailto::header_views(headers@),
            buf@ == old(buf)@ + header_lines(all.take(i as int)),
        decreases headers.len() - i,
    {
        let ghost before = buf@;
        assert(all.take(i + 1).drop_last() == all.take(i as int));
        assert(all.take(i + 1).last() == (headers@[i as int].0@, headers@[i as int].1@));
        let name = &headers[i].0;
        if name.is_rfc("Subject") || name.is_rfc("From") {
            assert(buf@ =~= old(buf)@ + header_lines(all.take(i + 1)));
        } else {
            let mut label = String::from_str(name.as_str());
            label.append(": ");
            put_line(buf, label.as_str(), headers[i].1.as_str().as_bytes());
            assert(buf@ =~= old(buf)@ + header_lines(all.take(i + 1)));
        }
        i += 1;
    }
    assert(all.take(all.len() as int) == all);
}

/// Tells whether the URI gives the known header `name`.
fn has_header(headers: &Vec<(HeaderName, String)>, name: &str) -> (r: bool)
    ensures
        r == gives_header(crate::mailto::header_views(headers@), name@),
{
    let ghost all = crate::mailto::header_views(headers@);
    let mut i: usize = 0;
    while i < headers.len()
        invariant
            i <= headers.len(),
            all == crate::mailto::header_views(headers@),
            forall|j: int| 0 <= j < i ==> (#[trigger] all[j]).0 != HeaderNameView::Rfc(name@),
        decreases headers.len() - i,
    {
        if headers[i].0.is_rfc(name) {
            assert(all[i as int].0 == HeaderNameView::Rfc(name@));
            return true;
        }
        i += 1;
    }
    false
}

/// Appends a header line to the buffer unless the URI gives the header.
fn put_default_line(
    buf: &mut Vec<u8>,
    headers: &Vec<(HeaderName, String)>,
    name: &str,
    value: &[u8],
)
    ensures
        final(buf)@ == old(buf)@ + default_line(
            crate::mailto::header_views(headers@),
            name@,
            value@,
        ),
{
    if has_header(headers, name) {
        assert(buf@ =~= old(buf)@ + Seq::<u8>::empty());
    } else {
        let mut label = String::from_str(name);
        label.append(": ");
        put_line(buf, label.as_str(), value);
    }
}

/// The value of the last `Subject` header that the URI gives.
fn subject_given(headers: &Vec<(HeaderName, String)>) -> (r: Option<&str>)
    ensures
        match r {
            Some(s) => given_subject(crate::mailto::header_views(headers@)) == Some(s@),
            None => given_subject(crate::mailto::header_views(headers@)) is None,
        },
{
    let ghost all = crate::mailto::header_views(headers@);
    let mut i = headers.len();
    assert(all.take(i as int) == all);
    while i > 0
        invariant
            i <= headers.len(),
            all == crate::mailto::header_views(headers@),
            given_subject(all) == given_subject(all.take(i as int)),
        decreases i,
    {
        i -= 1;
        assert(all.take(i + 1).drop_last() == all.take(i as int));
        assert(all.take(i + 1).last() == (headers@[i as int].0@, headers@[i as int].1@));
        if headers[i].0.is_rfc("Subject") {
            return Some(headers[i].1.as_str());
        }
    }
    None
}

/// The first of the three that is there, and the empty text when none is.
fn pick<'a>(a: Option<&'a str>, b: Option<&'a str>, c: Option<&'a str>) -> (r: &'a str)
    ensures
        r@ == first_of(opt_str(a), opt_str(b), opt_str(c)),
{
    proof {
        reveal_strlit("");
        assert(""@ =~= Seq::<char>::empty());
    }
    match a {
        Some(t) => t,
        None => match b {
            Some(t) => t,
            None => match c {
                Some(t) => t,
                None => "",
            },
        },
    }
}

/// The subject cut to the most characters that a notification carries.
fn shorten(subject: &str) -> (r: String)
    ensures
        r@ == shortened(subject@),
{
    let chars = to_chars(subject);
    if chars.len() > MAX_SUBJECT_LEN {
        let mut cut = text_of_range(&chars, 0, MAX_SUBJECT_LEN);
        push_char(&mut cut, '\u{2026}');
        cut
    } else {
        String::from_str(subject)
    }
}

/// Builds the message that notifies by mail.
fn build_notification(
    msg: &MailtoMessage,
    from: &str,
    date: &str,
    id: &Vec<u8>,
    importance: Option<&str>,
    note: Option<&str>,
    subject: Option<&str>,
) -> (r: Vec<u8>)
    ensures
        r@ == notification(
            msg@,
            Notice {
                from: from@,
                date: date@,
                id: id@,
                importance: opt_str(importance),
                note: opt_str(note),
                subject: opt_str(subject),
            },
        ),
{
    let mut buf: Vec<u8> = Vec::new();
    put_line(&mut buf, "From: ", from.as_bytes());
    assert(buf@ =~= line("From: "@, encode_utf8(from@)));
    put_addresses(&mut buf, "To: ", &msg.to);
    put_addresses(&mut buf, "Cc: ", &msg.cc);
    put_headers(&mut buf, &msg.headers);
    put_default_line(&mut buf, &msg.headers, "Date", date.as_bytes());
    put_default_line(&mut buf, &msg.headers, "Message-ID", id.as_slice());
    let (name, priority) = match importance {
        Some(i) => {
            if text_eq(i, "1") {
                ("High", "1 (High)")
            } else if text_eq(i, "3") {
                ("Low", "5 (Low)")
            } else {
                ("Normal", "3 (Normal)")
            }
        },
        None => ("Normal", "3 (Normal)"),
    };
    put_line(&mut buf, "Importance: ", name.as_bytes());
    put_line(&mut buf, "X-Priority: ", priority.as_bytes());
    let short = shorten(pick(subject_given(&msg.headers), note, subject));
    put_line(&mut buf, "Subject: ", short.as_str().as_bytes());
    put_text(&mut buf, "Auto-Submitted: auto-notified\r\n");
    put_text(&mut buf, "X-Sieve: yes\r\n");
    put_text(&mut buf, "Content-type: text/plain; charset=utf-8\r\n\r\n");
    let body = match &msg.body {
        Some(b) => Some(b.as_str()),
        None => None,
    };
    put_text(&mut buf, pick(body, note, subject));
    buf
}

/// The place of the last `c` in `chars[from..to]`.
fn find_last(chars: &Vec<char>, from: usize, to: usize, c: char) -> (r: Option<usize>)
    requires
        from <= to <= chars.len(),
    ensures
        match r {
            Some(i) => from <= i < to && last_index(chars@.subrange(from as int, to as int), c)
                == Some(i - from),
            None => last_index(chars@.subrange(from as int, to as int), c) is None,
        },
{
    let ghost piece = chars@.subrange(from as int, to as int);
    let mut i = to;
    assert(piece.take(to - from) == piece);
    while i > from
        invariant
            from <= i <= to <= chars.len(),
            piece == chars@.subrange(from as int, to as int),
            last_index(piece, c) == last_index(piece.take(i - from), c),
        decreases i,
    {
        i -= 1;
        assert(piece.take(i - from + 1).drop_last() == piece.take(i - from));
        if chars[i] == c {
            return Some(i);
        }
    }
    None
}

/// The bare address of a recipient.
fn bare_address(address: &str) -> (r: String)
    ensures
        r@ == inner_address(address@),
{
    let chars = to_chars(address);
    let len = chars.len();
    assert(chars@.subrange(0, len as int) == chars@);
    match find_last(&chars, 0, len, '<') {
        Some(i) => {
            assert(chars@.skip(i + 1) == chars@.subrange(i + 1, len as int));
            match find_last(&chars, i + 1, len, '>') {
                Some(j) => {
                    assert(chars@.skip(i + 1).take(j - (i + 1)) == chars@.subrange(
                        i + 1,
                        j as int,
                    ));
                    text_of_range(&chars, i + 1, j)
                },
                None => String::from_str(address),
            }
        },
        None => String::from_str(address),
    }
}

/// Adds the bare addresses of `list` to `result`.
fn add_bare(result: &mut Vec<String>, list: &Vec<String>)
    ensures
        texts(final(result)@) == texts(old(result)@) + texts(list@).map_values(
            |a: Seq<char>| inner_address(a),
        ),
{
    let ghost bare = texts(list@).map_values(|a: Seq<char>| inner_address(a));
    let mut i: usize = 0;
    assert(texts(result@) =~= texts(old(result)@) + bare.take(0));
    while i < list.len()
        invariant
            i <= list.len(),
            bare == texts(list@).map_values(|a: Seq<char>| inner_address(a)),
            texts(result@) == texts(old(result)@) + bare.take(i as int),
        decreases list.len() - i,
    {
        let ghost before = result@;
        let address = bare_address(list[i].as_str());
        result.push(address);
        assert(texts(result@) =~= texts(before).push(address@));
        assert(texts(result@) =~= texts(old(result)@) + bare.take(i + 1));
        i += 1;
    }
    assert(bare.take(bare.len() as int) == bare);
}

/// The bare addresses of all recipients: `To`, then `Cc`, then `Bcc`.
fn recipients(msg: &MailtoMessage) -> (r: Vec<String>)
    ensures
        texts(r@) == recipients_of(msg@),
{
    let mut result: Vec<String> = Vec::new();
    add_bare(&mut result, &msg.to);
    add_bare(&mut result, &msg.cc);
    add_bare(&mut result, &msg.bcc);
    assert(texts(result@) =~= recipients_of(msg@));
    result
}

/// Tells whether one of the headers marks the message as sent by a machine.
pub fn marked_auto_submitted(headers: &Vec<Header>) -> (r: bool)
    ensures
        r == auto_submitted(headers@),
{
    let mut i: usize = 0;
    while i < headers.len()
        invariant
            i <= headers.len(),
            forall|j: int| 0 <= j < i ==> !is_auto_submitted(#[trigger] headers@[j]),
        decreases headers.len() - i,
    {
        let header = &headers[i];
        let named = match &header.name {
            HeaderName::Other(name) => text_eq_ignore_case(name.as_str(), "Auto-Submitted"),
            HeaderName::Rfc(_) => false,
        };
        if named {
            let marked = match header.value.as_text_ref() {
                Some(v) => !text_eq_ignore_case(v, "no"),
                None => true,
            };
            if marked {
                return true;
            }
        }
        i += 1;
    }
    false
}

/// Whether `out` is the place for a copy that `fcc` describes, with its
/// strings put together.
pub open spec fn fcc_is(
    vars: Variables,
    fcc: Option<FileCarbonCopy<StringItem>>,
    out: Option<FileCarbonCopy<String>>,
) -> bool {
    match (fcc, out) {
        (Some(a), Some(b)) => {
            &&& b.mailbox@ == vars.text(a.mailbox)
            &&& opt_text(b.mailbox_id) == vars.optional(a.mailbox_id)
            &&& b.create == a.create
            &&& texts(b.flags@) == vars.texts(a.flags@)
            &&& opt_text(b.special_use) == vars.optional(a.special_use)
        },
        (None, None) => true,
        _ => false,
    }
}

impl Variables {
    /// Puts the strings of a place for a copy together.
    pub fn eval_fcc(&self, fcc: &Option<FileCarbonCopy<StringItem>>) -> (r: Option<
        FileCarbonCopy<String>,
    >)
        ensures
            fcc_is(*self, *fcc, r),
    {
        match fcc {
            Some(fcc) => Some(
                FileCarbonCopy {
                    mailbox: self.eval_string(&fcc.mailbox),
                    mailbox_id: self.eval_optional(&fcc.mailbox_id),
                    create: fcc.create,
                    flags: self.eval_strings_owned(&fcc.flags),
                    special_use: self.eval_optional(&fcc.special_use),
                },
            ),
            None => None,
        }
    }
}

impl Context {
    /// The user's own `From` field.
    pub fn user_from_field(&self) -> (r: String)
        ensures
            r@ == from_field(self.user_full_name@, self.user_address@),
    {
        if !self.user_full_name.as_str().is_empty() {
            let mut field = String::from_str("\"");
            field.append(self.user_full_name.as_str());
            field.append("\" <");
            field.append(self.user_address.as_str());
            field.append(">");
            field
        } else {
            self.user_address.clone()
        }
    }

    /// Whether `after` differs from this context in its actions and its
    /// generated messages at most.
    pub open spec fn same_but_outputs(self, after: Context) -> bool {
        &&& after.message == self.message
        &&& after.part == self.part
        &&& after.vars == self.vars
        &&& after.runtime == self.runtime
        &&& after.user_address == self.user_address
        &&& after.user_full_name == self.user_full_name
        &&& after.current_time == self.current_time
        &&& after.has_changes == self.has_changes
        &&& after.edited_message == self.edited_message
    }
}

impl Notify {
    /// Whether `after` is the context `before` once this notification has
    /// run with the fresh message id `id`. Nothing happens for a message
    /// that a machine sent, for a method that is no URI, and for a `mailto:`
    /// URI that is malformed. A `mailto:` URI generates a message and the
    /// action that sends it; every other scheme gives the action that hands
    /// the notification to the delivery system as it stands.
    pub open spec fn notified(self, before: Context, after: Context, id: Seq<u8>) -> bool {
        let vars = before.vars;
        let uri = vars.text(self.method);
        if auto_submitted(before.message.root_headers()) {
            after == before
        } else {
            match uri_parts(uri) {
                None => after == before,
                Some((scheme, rest)) => if eq_ignore_case(scheme, "mailto"@) {
                    match mailto_message(encode_utf8(rest)) {
                        None => after == before,
                        Some(msg) => self.sent(before, after, msg, id),
                    }
                } else {
                    self.handed_on(before, after, uri)
                },
            }
        }
    }

    /// Whether `after` is `before` with the generated message for `msg` and
    /// the action that sends it.
    pub open spec fn sent(self, before: Context, after: Context, msg: MessageView, id: Seq<u8>) -> bool {
        let vars = before.vars;
        &&& before.same_but_outputs(after)
        &&& after.messages@.len() == before.messages@.len() + 1
        &&& after.messages@.drop_last() == before.messages@
        &&& after.messages@.last()@ == notification(
            msg,
            Notice {
                from: sender(
                    vars.optional(self.from),
                    before.user_full_name@,
                    before.user_address@,
                ),
                date: rfc822_date(before.current_time),
                id,
                importance: vars.optional(self.importance),
                note: vars.optional(self.message),
                subject: before.message.subject(),
            },
        )
        &&& after.actions@.len() == before.actions@.len() + 1
        &&& after.actions@.drop_last() == before.actions@
        &&& after.actions@.last() matches Action::SendMessage {
            recipient,
            notify,
            return_of_content,
            by_time,
            message_id,
            fcc,
        }
        &&& recipient matches Recipient::Group(list)
        &&& texts(list@) == recipients_of(msg)
        &&& notify@ == NotifyView::Never
        &&& return_of_content == Ret::Default
        &&& by_time == ByTime::<i64>::Unlimited
        &&& message_id == before.messages@.len()
        &&& fcc_is(vars, self.fcc, fcc)
    }

    /// Whether `after` is `before` with the action that hands the
    /// notification by `uri` to the delivery system.
    pub open spec fn handed_on(self, before: Context, after: Context, uri: Seq<char>) -> bool {
        let vars = before.vars;
        &&& before.same_but_outputs(after)
        &&& after.messages == before.messages
        &&& after.actions@.len() == before.actions@.len() + 1
        &&& after.actions@.drop_last() == before.actions@
        &&& after.actions@.last() matches Action::Notify {
            method,
            from,
            importance,
            options,
            message,
            fcc,
        }
        &&& method@ == uri
        &&& opt_text(from) == vars.optional(self.from)
        &&& importance == importance_of(vars.optional(self.importance))
        &&& texts(options@) == vars.texts(self.options@)
        &&& opt_text(message) == vars.optional(self.message)
        &&& fcc_is(vars, self.fcc, fcc)
    }

    /// Runs the notification with the fresh message id `id`.
    pub fn notify_with_id(&self, ctx: &mut Context, id: Vec<u8>)
        ensures
            self.notified(*old(ctx), *final(ctx), id@),
            redirect_count(final(ctx).actions@) == redirect_count(old(ctx).actions@),
    {
        if ctx.message.parts.len() > 0 && marked_auto_submitted(&ctx.message.parts[0].headers) {
            return ;
        }
        assert(!auto_submitted(ctx.message.root_headers())) by {
            if ctx.message.parts@.len() == 0 {
                assert(ctx.message.root_headers().len() == 0);
            }
        }
        let uri = ctx.vars.eval_string(&self.method);
        let (scheme, rest) = match parse_uri(uri.as_str()) {
            Some(parts) => parts,
            None => {
                return ;
            },
        };
        let fcc = ctx.vars.eval_fcc(&self.fcc);
        if text_eq_ignore_case(scheme, "mailto") {
            let params = match parse_mailto(rest) {
                Some(params) => params,
                None => {
                    return ;
                },
            };
            let from = match ctx.vars.eval_optional(&self.from) {
                Some(from) => {
                    if text_contains_ignore_case(from.as_str(), ctx.user_address.as_str()) {
                        from
                    } else {
                        ctx.user_from_field()
                    }
                },
                None => ctx.user_from_field(),
            };
            let importance = ctx.vars.eval_optional(&self.importance);
            let note = ctx.vars.eval_optional(&self.message);
            let date = format_date(ctx.current_time);
            let message = build_notification(
                &params,
                from.as_str(),
                date.as_str(),
                &id,
                as_str(&importance),
                as_str(&note),
                ctx.message.get_subject(),
            );
            let message_id = ctx.messages.len();
            ctx.messages.push(message);
            ctx.actions.push(
                Action::SendMessage {
                    recipient: Recipient::Group(recipients(&params)),
                    notify: crate::compiler::redirect::Notify::Never,
                    return_of_content: Ret::Default,
                    by_time: ByTime::Unlimited,
                    message_id,
                    fcc,
                },
            );
            assert(ctx.messages@.drop_last() =~= old(ctx).messages@);
            assert(ctx.actions@.drop_last() =~= old(ctx).actions@);
            assert(!(ctx.actions@.last() is Redirect));
        } else {
            let importance = match ctx.vars.eval_optional(&self.importance) {
                Some(i) => {
                    if text_eq(i.as_str(), "1") {
                        Importance::High
                    } else if text_eq(i.as_str(), "3") {
                        Importance::Low
                    } else {
                        Importance::Normal
                    }
                },
                None => Importance::Normal,
            };
            let action = Action::Notify {
                method: uri,
                from: ctx.vars.eval_optional(&self.from),
                importance,
                options: ctx.vars.eval_strings_owned(&self.options),
                message: ctx.vars.eval_optional(&self.message),
                fcc,
            };
            ctx.actions.push(action);
            assert(ctx.actions@.drop_last() =~= old(ctx).actions@);
            assert(!(ctx.actions@.last() is Redirect));
        }
    }

    /// Runs the notification: for a `mailto:` URI it generates the message
    /// and asks for it to be sent, under a fresh message id; for every other
    /// scheme it hands the notification on.
    pub fn exec(&self, ctx: &mut Context)
        ensures
            exists|id: Seq<u8>|
                is_message_id(id, old(ctx).runtime.hostname@) && self.notified(
                    *old(ctx),
                    *final(ctx),
                    id,
                ),
            redirect_count(final(ctx).actions@) == redirect_count(old(ctx).actions@),
    {
        let id = generate_message_id(ctx.runtime.hostname.as_str());
        self.notify_with_id(ctx, id);
    }
}

/// An optional string as an optional slice.
fn as_str(s: &Option<String>) -> (r: Option<&str>)
    ensures
        opt_str(r) == opt_text(*s),
{
    match s {
        Some(s) => Some(s.as_str()),
        None => None,
    }
}

} // verus!
