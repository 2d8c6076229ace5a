//! Reading of notification URIs: the split into scheme and rest, and the
//! byte-driven reader of what follows `mailto:`.

use vstd::prelude::*;
use vstd::utf8::{decode_utf8, encode_utf8, valid_utf8};
use vstd::string::StrSliceExecFns;
use crate::text::{eq_ignore_case, text_eq, text_eq_ignore_case, text_from_utf8};
use crate::mailto::{
    insert_address, AddressField, HeaderName, HeaderNameView, Mailto, MailtoMessage,
    MailtoView, MessageView,
};

verus! {

/// The canonical spelling that the mail parser has for the header `name`, if
/// it knows a header of that name.
pub uninterp spec fn registered_header(name: Seq<char>) -> Option<Seq<char>>;

/// `HeaderName::parse` of mail_parser, followed by `RfcHeader::as_str` on a
/// name that it knows: the canonical spelling of the header called `name`,
/// or nothing when the parser has no such header in its table.
#[verifier::external_body]
pub(crate) fn known_header(name: &str) -> (r: Option<String>)
    ensures
        match r {
            Some(s) => registered_header(name@) == Some(s@),
            None => registered_header(name@) is None,
        },
{
    match mail_parser::HeaderName::parse(name) {
        Some(mail_parser::HeaderName::Rfc(header)) => Some(header.as_str().to_string()),
        _ => None,
    }
}

/// The value of the hexadecimal digit `b`, or -1 when `b` is none.
pub open spec fn hex_digit(b: u8) -> int {
    if 0x30 <= b <= 0x39 {
        b - 0x30
    } else if 0x41 <= b <= 0x46 {
        b - 0x41 + 10
    } else if 0x61 <= b <= 0x66 {
        b - 0x61 + 10
    } else {
        -1
    }
}

/// The table `HEX_MAP` of mail_parser, read at `b`: the value of the
/// hexadecimal digit, upper or lower case, and -1 for every other byte.
#[verifier::external_body]
fn hex_value(b: u8) -> (r: i8)
    ensures
        r == hex_digit(b),
{
    mail_parser::decoders::quoted_printable::HEX_MAP[b as usize]
}

/// Whether the byte is ASCII whitespace.
pub open spec fn is_space(b: u8) -> bool {
    b == 0x20 || b == 0x09 || b == 0x0a || b == 0x0c || b == 0x0d
}

/// Whether the byte may stand in the name of a parameter: an ASCII letter or
/// digit, `-` or `_`.
pub open spec fn is_name_byte(b: u8) -> bool {
    (0x30 <= b <= 0x39) || (0x41 <= b <= 0x5a) || (0x61 <= b <= 0x7a) || b == 0x2d || b == 0x5f
}

/// What the reader is in the middle of.
#[derive(Debug)]
pub enum State {
    /// An address for the given list; the flag says whether its `@` was seen.
    Address(AddressField, bool),
    /// The name of a parameter.
    ParamName,
    /// The value of a parameter.
    ParamValue(Mailto),
}

/// The model of a [`State`].
pub enum StateView {
    Address(AddressField, bool),
    ParamName,
    ParamValue(MailtoView),
}

impl View for State {
    type V = StateView;

    open spec fn view(&self) -> StateView {
        match self {
            State::Address(field, has_at) => StateView::Address(*field, *has_at),
            State::ParamName => StateView::ParamName,
            State::ParamValue(target) => StateView::ParamValue(target@),
        }
    }
}

/// The reader's progress: what was collected, the state, and the bytes of the
/// piece being read.
pub struct Progress {
    pub msg: MessageView,
    pub state: StateView,
    pub buf: Seq<u8>,
}

/// The state that follows a parameter name: a recipient list for `to`, `cc`
/// and `bcc`, the body for `body`, and a header for every other name.
pub open spec fn target_state(name: Seq<char>) -> StateView {
    match registered_header(name) {
        Some(canon) => if canon == "To"@ {
            StateView::Address(AddressField::To, false)
        } else if canon == "Cc"@ {
            StateView::Address(AddressField::Cc, false)
        } else if canon == "Bcc"@ {
            StateView::Address(AddressField::Bcc, false)
        } else {
            StateView::ParamValue(MailtoView::Header(canon))
        },
        None => if eq_ignore_case(name, "body"@) {
            StateView::ParamValue(MailtoView::Body)
        } else {
            StateView::ParamValue(MailtoView::Other(name))
        },
    }
}

impl Progress {
    /// The reader before the first byte: an address for `To`, nothing read.
    pub open spec fn start() -> Progress {
        Progress {
            msg: MessageView::empty(),
            state: StateView::Address(AddressField::To, false),
            buf: Seq::empty(),
        }
    }

    /// The byte is added to the piece being read.
    pub open spec fn keep(self, b: u8) -> Option<Progress> {
        Some(Progress { buf: self.buf.push(b), ..self })
    }

    /// The piece being read is offered to the list `field` as an address, and
    /// the reader goes on in `next`. Fails when the piece is not UTF-8.
    pub open spec fn store_address(self, field: AddressField, next: StateView) -> Option<
        Progress,
    > {
        if valid_utf8(self.buf) {
            Some(
                Progress {
                    msg: self.msg.with_address(field, decode_utf8(self.buf)),
                    state: next,
                    buf: Seq::empty(),
                },
            )
        } else {
            None
        }
    }

    /// The piece being read is stored as the value for `target`, and the
    /// reader goes on with a parameter name. Fails when the piece is not UTF-8.
    pub open spec fn store_value(self, target: MailtoView) -> Option<Progress> {
        if valid_utf8(self.buf) {
            Some(
                Progress {
                    msg: self.msg.with_value(target, decode_utf8(self.buf)),
                    state: StateView::ParamName,
                    buf: Seq::empty(),
                },
            )
        } else {
            None
        }
    }

    /// A comma: ends an address that has its `@`, is data in a value, and is
    /// malformed elsewhere.
    pub open spec fn comma(self) -> Option<Progress> {
        match self.state {
            StateView::Address(field, true) => self.store_address(
                field,
                StateView::Address(field, false),
            ),
            StateView::ParamValue(_) => self.keep(0x2c),
            _ => None,
        }
    }

    /// An at sign: allowed once in an address, after at least one byte; data
    /// in a parameter.
    pub open spec fn at_sign(self) -> Option<Progress> {
        match self.state {
            StateView::Address(field, false) => if self.buf.len() > 0 {
                Some(
                    Progress {
                        buf: self.buf.push(0x40),
                        state: StateView::Address(field, true),
                        ..self
                    },
                )
            } else {
                None
            },
            StateView::Address(_, true) => None,
            _ => self.keep(0x40),
        }
    }

    /// A question mark: ends the addresses and opens the parameters, after a
    /// pending address was stored; data in a value; malformed elsewhere.
    pub open spec fn question(self) -> Option<Progress> {
        match self.state {
            StateView::Address(field, has_at) => if self.buf.len() == 0 {
                Some(Progress { state: StateView::ParamName, ..self })
            } else if has_at {
                self.store_address(field, StateView::ParamName)
            } else {
                None
            },
            StateView::ParamValue(_) => self.keep(0x3f),
            StateView::ParamName => None,
        }
    }

    /// An equals sign: closes a parameter name that is not empty; data in a
    /// value; malformed elsewhere.
    pub open spec fn equals(self) -> Option<Progress> {
        match self.state {
            StateView::ParamName => if self.buf.len() > 0 && valid_utf8(self.buf) {
                Some(
                    Progress {
                        state: target_state(decode_utf8(self.buf)),
                        buf: Seq::empty(),
                        ..self
                    },
                )
            } else {
                None
            },
            StateView::ParamValue(_) => self.keep(0x3d),
            StateView::Address(_, _) => None,
        }
    }

    /// An ampersand: closes the value being read, which is stored unless it is
    /// empty, and opens the next parameter name.
    pub open spec fn ampersand(self) -> Option<Progress> {
        match self.state {
            StateView::Address(field, true) => if self.buf.len() > 0 {
                self.store_address(field, StateView::ParamName)
            } else {
                Some(Progress { state: StateView::ParamName, ..self })
            },
            StateView::ParamValue(target) => if self.buf.len() > 0 {
                self.store_value(target)
            } else {
                Some(Progress { state: StateView::ParamName, ..self })
            },
            _ => None,
        }
    }

    /// Any other byte: whitespace is dropped; a parameter name takes only
    /// name bytes; everything else is data.
    pub open spec fn other(self, b: u8) -> Option<Progress> {
        if is_space(b) {
            Some(self)
        } else if self.state is ParamName && !is_name_byte(b) {
            None
        } else {
            self.keep(b)
        }
    }

    /// The reader after the byte `b`, written as itself.
    pub open spec fn plain(self, b: u8) -> Option<Progress> {
        if b == 0x2c {
            self.comma()
        } else if b == 0x3f {
            self.question()
        } else if b == 0x40 {
            self.at_sign()
        } else if b == 0x3d {
            self.equals()
        } else if b == 0x26 {
            self.ampersand()
        } else {
            self.other(b)
        }
    }

    /// The reader after the byte `b`, written as a percent-escape: in an
    /// address a comma and an at sign act as if written plainly; every other
    /// byte is data.
    pub open spec fn escaped(self, b: u8) -> Option<Progress> {
        if self.state is Address && b == 0x2c {
            self.comma()
        } else if self.state is Address && b == 0x40 {
            self.at_sign()
        } else {
            self.keep(b)
        }
    }

    /// The message at the end of the input: a pending piece is stored (an
    /// address, a value, or a lone parameter name as a header without value),
    /// and at least one recipient must have been collected.
    pub open spec fn finish(self) -> Option<MessageView> {
        let msg = if self.buf.len() == 0 {
            Some(self.msg)
        } else if !valid_utf8(self.buf) {
            None
        } else {
            let value = decode_utf8(self.buf);
            match self.state {
                StateView::Address(field, true) => Some(self.msg.with_address(field, value)),
                StateView::Address(_, false) => None,
                StateView::ParamName => Some(
                    self.msg.with_value(MailtoView::Other(value), Seq::empty()),
                ),
                StateView::ParamValue(target) => Some(self.msg.with_value(target, value)),
            }
        };
        match msg {
            Some(m) => if m.recipients() > 0 {
                Some(m)
            } else {
                None
            },
            None => None,
        }
    }
}

/// The byte that a percent-escape with the hexadecimal digits `b1` and `b2`
/// stands for.
pub open spec fn escape_value(b1: u8, b2: u8) -> u8 {
    (hex_digit(b1) * 16 + hex_digit(b2)) as u8
}

/// The reader after the bytes from `pos` on; `None` when they are malformed.
pub open spec fn run(bytes: Seq<u8>, pos: int, p: Progress) -> Option<Progress>
    decreases bytes.len() - pos,
{
    if pos < 0 || pos >= bytes.len() {
        Some(p)
    } else if bytes[pos] == 0x25 {
        if pos + 2 < bytes.len() && hex_digit(bytes[pos + 1]) != -1 && hex_digit(bytes[pos + 2])
            != -1 {
            match p.escaped(escape_value(bytes[pos + 1], bytes[pos + 2])) {
                Some(q) => run(bytes, pos + 3, q),
                None => None,
            }
        } else {
            None
        }
    } else {
        match p.plain(bytes[pos]) {
            Some(q) => run(bytes, pos + 1, q),
            None => None,
        }
    }
}

/// The message that the bytes after `mailto:` describe, if they are
/// well-formed and name at least one recipient.
pub open spec fn mailto_message(bytes: Seq<u8>) -> Option<MessageView> {
    match run(bytes, 0, Progress::start()) {
        Some(p) => p.finish(),
        None => None,
    }
}

/// The reader at work: the message so far, the state, and the bytes of the
/// piece being read.
struct Reader {
    msg: MailtoMessage,
    state: State,
    buf: Vec<u8>,
}

impl Reader {
    /// The progress that the reader stands for.
    spec fn view(&self) -> Progress {
        Progress { msg: self.msg@, state: self.state@, buf: self.buf@ }
    }
}

/// Stores `value` in `msg` where `target` says.
fn store(msg: &mut MailtoMessage, target: Mailto, value: String)
    ensures
        final(msg)@ == old(msg)@.with_value(target@, value@),
{
    let ghost before = *msg;
    match target {
        Mailto::Header(name) => {
            msg.headers.push((HeaderName::Rfc(name), value));
            assert(crate::mailto::header_views(msg.headers@) =~= crate::mailto::header_views(
                before.headers@,
            ).push((HeaderNameView::Rfc(name@), value@)));
        },
        Mailto::Body => {
            msg.body = Some(value);
        },
        Mailto::Other(name) => {
            msg.headers.push((HeaderName::Other(name), value));
            assert(crate::mailto::header_views(msg.headers@) =~= crate::mailto::header_views(
                before.headers@,
            ).push((HeaderNameView::Other(name@), value@)));
        },
    }
}

/// The state that follows the parameter name `name`.
fn target_of(name: String) -> (r: State)
    ensures
        r@ == target_state(name@),
{
    match known_header(name.as_str()) {
        Some(canon) => {
            if text_eq(canon.as_str(), "To") {
                State::Address(AddressField::To, false)
            } else if text_eq(canon.as_str(), "Cc") {
                State::Address(AddressField::Cc, false)
            } else if text_eq(canon.as_str(), "Bcc") {
                State::Address(AddressField::Bcc, false)
            } else {
                State::ParamValue(Mailto::Header(canon))
            }
        },
        None => {
            if text_eq_ignore_case(name.as_str(), "body") {
                State::ParamValue(Mailto::Body)
            } else {
                State::ParamValue(Mailto::Other(name))
            }
        },
    }
}

impl Reader {
    fn keep(self, b: u8) -> (r: Option<Reader>)
        ensures
            crate::uri::same(r, self@.keep(b)),
    {
        let mut next = self;
        next.buf.push(b);
        Some(next)
    }

    fn store_address(self, field: AddressField, next: State) -> (r: Option<Reader>)
        ensures
            crate::uri::same(r, self@.store_address(field, next@)),
    {
        let mut msg = self.msg;
        match text_from_utf8(self.buf) {
            Some(value) => {
                insert_address(&mut msg, field, value);
                Some(Reader { msg, state: next, buf: Vec::new() })
            },
            None => None,
        }
    }

    fn store_value(self, target: Mailto) -> (r: Option<Reader>)
        ensures
            crate::uri::same(r, self@.store_value(target@)),
    {
        let mut msg = self.msg;
        match text_from_utf8(self.buf) {
            Some(value) => {
                store(&mut msg, target, value);
                Some(Reader { msg, state: State::ParamName, buf: Vec::new() })
            },
            None => None,
        }
    }

    fn comma(self) -> (r: Option<Reader>)
        ensures
            crate::uri::same(r, self@.comma()),
    {
        match self.state {
            State::Address(field, true) => self.store_address(
                field,
                State::Address(field, false),
            ),
            State::ParamValue(_) => self.keep(0x2c),
            _ => None,
        }
    }

    fn at_sign(self) -> (r: Option<Reader>)
        ensures
            crate::uri::same(r, self@.at_sign()),
    {
        match self.state {
            State::Address(field, false) => {
                if self.buf.len() > 0 {
                    let mut buf = self.buf;
                    buf.push(0x40);
                    Some(Reader { msg: self.msg, state: State::Address(field, true), buf })
                } else {
                    None
                }
            },
            State::Address(_, true) => None,
            _ => self.keep(0x40),
        }
    }

    fn question(self) -> (r: Option<Reader>)
        ensures
            crate::uri::same(r, self@.question()),
    {
        match self.state {
            State::Address(field, has_at) => {
                if self.buf.len() == 0 {
                    Some(Reader { msg: self.msg, state: State::ParamName, buf: self.buf })
                } else if has_at {
                    self.store_address(field, State::ParamName)
                } else {
                    None
                }
            },
            State::ParamValue(_) => self.keep(0x3f),
            State::ParamName => None,
        }
    }

    fn equals(self) -> (r: Option<Reader>)
        ensures
            crate::uri::same(r, self@.equals()),
    {
        match self.state {
            State::ParamName => {
                if self.buf.len() > 0 {
                    match text_from_utf8(self.buf) {
                        Some(name) => Some(
                            Reader { msg: self.msg, state: target_of(name), buf: Vec::new() },
                        ),
                        None => None,
                    }
                } else {
                    None
                }
            },
            State::ParamValue(_) => self.keep(0x3d),
            State::Address(_, _) => None,
        }
    }

    fn ampersand(self) -> (r: Option<Reader>)
        ensures
            crate::uri::same(r, self@.ampersand()),
    {
        if self.buf.len() == 0 {
            match self.state {
                State::Address(_, true) | State::ParamValue(_) => Some(
                    Reader { msg: self.msg, state: State::ParamName, buf: self.buf },
                ),
                _ => None,
            }
        } else {
            match self.state {
                State::Address(field, true) => self.store_address(field, State::ParamName),
                State::ParamValue(target) => Reader {
                    msg: self.msg,
                    state: State::ParamName,
                    buf: self.buf,
                }.store_value(target),
                _ => None,
            }
        }
    }

    fn other(self, b: u8) -> (r: Option<Reader>)
        ensures
            crate::uri::same(r, self@.other(b)),
    {
        if b == 0x20 || b == 0x09 || b == 0x0a || b == 0x0c || b == 0x0d {
            Some(self)
        } else {
            let in_name = match self.state {
                State::ParamName => true,
                _ => false,
            };
            let name_byte = (0x30 <= b && b <= 0x39) || (0x41 <= b && b <= 0x5a) || (0x61 <= b
                && b <= 0x7a) || b == 0x2d || b == 0x5f;
            if in_name && !name_byte {
                None
            } else {
                self.keep(b)
            }
        }
    }

    fn plain(self, b: u8) -> (r: Option<Reader>)
        ensures
            crate::uri::same(r, self@.plain(b)),
    {
        if b == 0x2c {
            self.comma()
        } else if b == 0x3f {
            self.question()
        } else if b == 0x40 {
            self.at_sign()
        } else if b == 0x3d {
            self.equals()
        } else if b == 0x26 {
            self.ampersand()
        } else {
            self.other(b)
        }
    }

    fn escaped(self, b: u8) -> (r: Option<Reader>)
        ensures
            crate::uri::same(r, self@.escaped(b)),
    {
        let in_address = match self.state {
            State::Address(_, _) => true,
            _ => false,
        };
        if in_address && b == 0x2c {
            self.comma()
        } else if in_address && b == 0x40 {
            self.at_sign()
        } else {
            self.keep(b)
        }
    }

    fn finish(self) -> (r: Option<MailtoMessage>)
        ensures
            match r {
                Some(m) => self@.finish() == Some(m@),
                None => self@.finish() is None,
            },
    {
        let mut msg = self.msg;
        if self.buf.len() > 0 {
            match text_from_utf8(self.buf) {
                Some(value) => {
                    match self.state {
                        State::Address(field, true) => {
                            insert_address(&mut msg, field, value);
                        },
                        State::Address(_, false) => {
                            return None;
                        },
                        State::ParamName => {
                            store(&mut msg, Mailto::Other(value), String::new());
                        },
                        State::ParamValue(target) => {
                            store(&mut msg, target, value);
                        },
                    }
                },
                None => {
                    return None;
                },
            }
        }
        if msg.to.len() > 0 || msg.cc.len() > 0 || msg.bcc.len() > 0 {
            Some(msg)
        } else {
            None
        }
    }
}

/// Whether the reader `r` stands for the progress `p`, failure for failure.
spec fn same(r: Option<Reader>, p: Option<Progress>) -> bool {
    match r {
        Some(reader) => p == Some(reader@),
        None => p is None,
    }
}

/// Reads what follows `mailto:` in a URI: the recipients before the `?`, and
/// after it the parameters, of which `to`, `cc` and `bcc` add recipients,
/// `body` sets the body, and every other one gives a header. Returns nothing
/// when the text is malformed or names no recipient.
pub fn parse_mailto(uri: &str) -> (r: Option<MailtoMessage>)
    ensures
        match r {
            Some(m) => mailto_message(encode_utf8(uri@)) == Some(m@),
            None => mailto_message(encode_utf8(uri@)) is None,
        },
{
    let bytes = uri.as_bytes();
    let mut reader = Reader {
        msg: MailtoMessage {
            to: Vec::new(),
            cc: Vec::new(),
            bcc: Vec::new(),
            body: None,
            headers: Vec::new(),
        },
        state: State::Address(AddressField::To, false),
        buf: Vec::new(),
    };
    assert(reader@ == Progress::start()) by {
        assert(reader@.msg.to =~= Seq::empty());
        assert(reader@.msg.cc =~= Seq::empty());
        assert(reader@.msg.bcc =~= Seq::empty());
        assert(reader@.msg.headers =~= Seq::empty());
    }
    let mut i: usize = 0;
    while i < bytes.len()
        invariant
            i <= bytes.len(),
            bytes@ == encode_utf8(uri@),
            run(bytes@, i as int, reader@) == run(bytes@, 0, Progress::start()),
        decreases bytes.len() - i,
    {
        let b = bytes[i];
        if b == 0x25 {
            if bytes.len() - i < 3 {
                return None;
            }
            let hex1 = hex_value(bytes[i + 1]);
            let hex2 = hex_value(bytes[i + 2]);
            if hex1 == -1 || hex2 == -1 {
                return None;
            }
            let value: u8 = (hex1 as u8) * 16 + (hex2 as u8);
            match reader.escaped(value) {
                Some(next) => {
                    reader = next;
                },
                None => {
                    return None;
                },
            }
            i += 3;
        } else {
            match reader.plain(b) {
                Some(next) => {
                    reader = next;
                },
                None => {
                    return None;
                },
            }
            i += 1;
        }
    }
    reader.finish()
}

/// Whether the first colon of `uri` stands at `i`.
pub open spec fn first_colon(uri: Seq<char>, i: int) -> bool {
    &&& 0 <= i < uri.len()
    &&& uri[i] == ':'
    &&& forall|j: int| 0 <= j < i ==> uri[j] != ':'
}

/// The scheme of a URI and what follows its first colon; nothing when there
/// is no colon or nothing after it.
pub open spec fn uri_parts(uri: Seq<char>) -> Option<(Seq<char>, Seq<char>)> {
    if exists|i: int| first_colon(uri, i) {
        let i = choose|i: int| first_colon(uri, i);
        if i + 1 < uri.len() {
            Some((uri.take(i), uri.skip(i + 1)))
        } else {
            None
        }
    } else {
        None
    }
}

/// At most one position is that of the first colon.
pub proof fn lemma_first_colon_unique(uri: Seq<char>, i: int, j: int)
    requires
        first_colon(uri, i),
        first_colon(uri, j),
    ensures
        i == j,
{
}

/// Splits a URI at its first colon into the scheme and the rest, which must
/// not be empty.
pub fn parse_uri(uri: &str) -> (r: Option<(&str, &str)>)
    ensures
        match r {
            Some((scheme, rest)) => uri_parts(uri@) == Some((scheme@, rest@)),
            None => uri_parts(uri@) is None,
        },
{
    let len = uri.unicode_len();
    let mut i: usize = 0;
    while i < len
        invariant
            i <= len,
            len == uri@.len(),
            forall|j: int| 0 <= j < i ==> uri@[j] != ':',
        decreases len - i,
    {
        if uri.get_char(i) == ':' {
            proof {
                assert(first_colon(uri@, i as int));
                lemma_first_colon_unique(uri@, i as int, choose|k: int| first_colon(uri@, k));
            }
            if i + 1 < len {
                return Some((uri.substring_char(0, i), uri.substring_char(i + 1, len)));
            } else {
                return None;
            }
        }
        i += 1;
    }
    None
}

/// The scheme that `validate_uri` accepts for a URI: the scheme of a URI
/// that has one, unless the scheme is `mailto` and the rest is no well-formed
/// list of recipients and parameters.
pub open spec fn valid_scheme(uri: Seq<char>) -> Option<Seq<char>> {
    match uri_parts(uri) {
        Some((scheme, rest)) => if eq_ignore_case(scheme, "mailto"@) && mailto_message(
            encode_utf8(rest),
        ) is None {
            None
        } else {
            Some(scheme)
        },
        None => None,
    }
}

/// Checks a notification URI and returns its scheme.
pub fn validate_uri(uri: &str) -> (r: Option<&str>)
    ensures
        match r {
            Some(scheme) => valid_scheme(uri@) == Some(scheme@),
            None => valid_scheme(uri@) is None,
        },
{
    match parse_uri(uri) {
        Some((scheme, rest)) => {
            if text_eq_ignore_case(scheme, "mailto") && parse_mailto(rest).is_none() {
                None
            } else {
                Some(scheme)
            }
        },
        None => None,
    }
}

} // verus!
