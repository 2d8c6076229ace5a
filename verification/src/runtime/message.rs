//! The message that a script inspects, as far as the actions read it.

use vstd::prelude::*;
use crate::mailto::{HeaderName, HeaderNameView};
use crate::runtime::date::DateTime;

verus! {

/// The value of a `Content-Type` or `Content-Disposition` header.
#[derive(Debug)]
pub struct ContentType {
    pub c_type: String,
    pub c_subtype: Option<String>,
    pub attributes: Option<Vec<(String, String)>>,
}

/// The value of a header.
#[derive(Debug)]
pub enum HeaderValue {
    Text(String),
    TextList(Vec<String>),
    DateTime(DateTime),
    ContentType(ContentType),
    /// An address, a group of addresses, or nothing.
    Empty,
}

/// A header of a message part.
#[derive(Debug)]
pub struct Header {
    pub name: HeaderName,
    pub value: HeaderValue,
    /// Where the value starts in the raw message.
    pub offset_start: usize,
    /// Where the value ends in the raw message; 0 for a header that a script
    /// has added.
    pub offset_end: usize,
}

/// A part of a message.
#[derive(Debug)]
pub struct MessagePart {
    pub headers: Vec<Header>,
    /// The parts directly below this one, by their place in the message.
    pub sub_parts: Vec<usize>,
}

/// A parsed message: its parts, the first of which is the root, and its
/// bytes.
#[derive(Debug)]
pub struct Message {
    pub parts: Vec<MessagePart>,
    pub raw_message: Vec<u8>,
}

impl HeaderValue {
    /// The value as text: a text itself, or the last of a list of texts.
    pub open spec fn text(self) -> Option<Seq<char>> {
        match self {
            HeaderValue::Text(s) => Some(s@),
            HeaderValue::TextList(l) => if l@.len() > 0 {
                Some(l@.last()@)
            } else {
                None
            },
            _ => None,
        }
    }

    /// The value as text: a text itself, or the last of a list of texts.
    pub fn as_text_ref(&self) -> (r: Option<&str>)
        ensures
            match r {
                Some(s) => self.text() == Some(s@),
                None => self.text() is None,
            },
    {
        match self {
            HeaderValue::Text(s) => Some(s.as_str()),
            HeaderValue::TextList(l) => {
                if l.len() > 0 {
                    Some(l[l.len() - 1].as_str())
                } else {
                    None
                }
            },
            _ => None,
        }
    }
}

/// The text of the last header among `headers` that is the known header
/// `name` and has a text value.
pub open spec fn last_text(headers: Seq<Header>, name: Seq<char>) -> Option<Seq<char>>
    decreases headers.len(),
{
    if headers.len() == 0 {
        None
    } else if headers.last().name@ == HeaderNameView::Rfc(name) {
        headers.last().value.text()
    } else {
        last_text(headers.drop_last(), name)
    }
}

impl Message {
    /// The headers of the root part; none for a message without parts.
    pub open spec fn root_headers(self) -> Seq<Header> {
        if self.parts@.len() > 0 {
            self.parts@[0].headers@
        } else {
            Seq::empty()
        }
    }

    /// The subject: the text of the last `Subject` header of the root part.
    pub open spec fn subject(self) -> Option<Seq<char>> {
        last_text(self.root_headers(), "Subject"@)
    }

    /// The subject of the message, if it has one.
    pub fn get_subject(&self) -> (r: Option<&str>)
        ensures
            match r {
                Some(s) => self.subject() == Some(s@),
                None => self.subject() is None,
            },
    {
        if self.parts.len() == 0 {
            return None;
        }
        let headers = &self.parts[0].headers;
        let mut i = headers.len();
        assert(headers@.take(i as int) == headers@);
        while i > 0
            invariant
                i <= headers.len(),
                headers@ == self.root_headers(),
                last_text(headers@, "Subject"@) == last_text(headers@.take(i as int), "Subject"@),
            decreases i,
        {
            i -= 1;
            assert(headers@.take(i + 1).drop_last() == headers@.take(i as int));
            if headers[i].name.is_rfc("Subject") {
                return headers[i].value.as_text_ref();
            }
        }
        None
    }
}

} // verus!
