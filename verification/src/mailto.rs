//! Notification URIs: splitting off the scheme and reading a `mailto:` URI
//! into its recipients, body and headers.

use vstd::prelude::*;
use crate::text::{eq_ignore_case, text_eq, text_eq_ignore_case};

verus! {

/// One of the three recipient lists of a message.
#[derive(Clone, Copy, Debug, PartialEq, Eq, Structural)]
pub enum AddressField {
    To,
    Cc,
    Bcc,
}

/// The name of a header: one that the mail parser knows, in its canonical
/// spelling, or any other name as it was written.
#[derive(Debug)]
pub enum HeaderName {
    Rfc(String),
    Other(String),
}

/// The model of a [`HeaderName`].
pub enum HeaderNameView {
    Rfc(Seq<char>),
    Other(Seq<char>),
}

impl View for HeaderName {
    type V = HeaderNameView;

    open spec fn view(&self) -> HeaderNameView {
        match self {
            HeaderName::Rfc(name) => HeaderNameView::Rfc(name@),
            HeaderName::Other(name) => HeaderNameView::Other(name@),
        }
    }
}

impl HeaderNameView {
    /// The name as text.
    pub open spec fn text(self) -> Seq<char> {
        match self {
            HeaderNameView::Rfc(name) => name,
            HeaderNameView::Other(name) => name,
        }
    }
}

impl HeaderName {
    /// The name as text.
    pub fn as_str(&self) -> (r: &str)
        ensures
            r@ == self@.text(),
    {
        match self {
            HeaderName::Rfc(name) => name.as_str(),
            HeaderName::Other(name) => name.as_str(),
        }
    }

    /// Whether this is the known header with the canonical spelling `name`.
    pub fn is_rfc(&self, name: &str) -> (r: bool)
        ensures
            r == (self@ == HeaderNameView::Rfc(name@)),
    {
        match self {
            HeaderName::Rfc(n) => text_eq(n.as_str(), name),
            HeaderName::Other(_) => false,
        }
    }
}

/// Where the value of a query parameter goes.
#[derive(Debug)]
pub enum Mailto {
    /// Into a known header, named by its canonical spelling.
    Header(String),
    /// Into the body.
    Body,
    /// Into a header of any other name.
    Other(String),
}

/// The model of a [`Mailto`].
pub enum MailtoView {
    Header(Seq<char>),
    Body,
    Other(Seq<char>),
}

impl View for Mailto {
    type V = MailtoView;

    open spec fn view(&self) -> MailtoView {
        match self {
            Mailto::Header(name) => MailtoView::Header(name@),
            Mailto::Body => MailtoView::Body,
            Mailto::Other(name) => MailtoView::Other(name@),
        }
    }
}

/// What a `mailto:` URI asks to be sent.
#[derive(Debug)]
pub struct MailtoMessage {
    pub to: Vec<String>,
    pub cc: Vec<String>,
    pub bcc: Vec<String>,
    pub body: Option<String>,
    pub headers: Vec<(HeaderName, String)>,
}

/// The model of a [`MailtoMessage`].
pub struct MessageView {
    pub to: Seq<Seq<char>>,
    pub cc: Seq<Seq<char>>,
    pub bcc: Seq<Seq<char>>,
    pub body: Option<Seq<char>>,
    pub headers: Seq<(HeaderNameView, Seq<char>)>,
}

/// The texts of a list of strings.
pub open spec fn texts(v: Seq<String>) -> Seq<Seq<char>> {
    Seq::new(v.len(), |i: int| v[i]@)
}

/// The models of a list of headers.
pub open spec fn header_views(v: Seq<(HeaderName, String)>) -> Seq<(HeaderNameView, Seq<char>)> {
    Seq::new(v.len(), |i: int| (v[i].0@, v[i].1@))
}

impl View for MailtoMessage {
    type V = MessageView;

    open spec fn view(&self) -> MessageView {
        MessageView {
            to: texts(self.to@),
            cc: texts(self.cc@),
            bcc: texts(self.bcc@),
            body: match self.body {
                Some(b) => Some(b@),
                None => None,
            },
            headers: header_views(self.headers@),
        }
    }
}

/// Whether `list` holds `value`, ASCII case aside.
pub open spec fn holds_address(list: Seq<Seq<char>>, value: Seq<char>) -> bool {
    exists|i: int| 0 <= i < list.len() && eq_ignore_case(#[trigger] list[i], value)
}

impl MessageView {
    /// The message with nothing in it.
    pub open spec fn empty() -> MessageView {
        MessageView {
            to: Seq::empty(),
            cc: Seq::empty(),
            bcc: Seq::empty(),
            body: None,
            headers: Seq::empty(),
        }
    }

    /// Whether one of the three recipient lists holds `value`, ASCII case aside.
    pub open spec fn has_address(self, value: Seq<char>) -> bool {
        holds_address(self.to, value) || holds_address(self.cc, value) || holds_address(
            self.bcc,
            value,
        )
    }

    /// The number of recipients in the three lists together.
    pub open spec fn recipients(self) -> nat {
        self.to.len() + self.cc.len() + self.bcc.len()
    }

    /// The message after `value` was offered to the list `field`: it is added
    /// at the end of that list unless some list holds it already.
    pub open spec fn with_address(self, field: AddressField, value: Seq<char>) -> MessageView {
        if self.has_address(value) {
            self
        } else {
            match field {
                AddressField::To => MessageView { to: self.to.push(value), ..self },
                AddressField::Cc => MessageView { cc: self.cc.push(value), ..self },
                AddressField::Bcc => MessageView { bcc: self.bcc.push(value), ..self },
            }
        }
    }

    /// The message after `value` was stored where `target` says.
    pub open spec fn with_value(self, target: MailtoView, value: Seq<char>) -> MessageView {
        match target {
            MailtoView::Header(name) => MessageView {
                headers: self.headers.push((HeaderNameView::Rfc(name), value)),
                ..self
            },
            MailtoView::Body => MessageView { body: Some(value), ..self },
            MailtoView::Other(name) => MessageView {
                headers: self.headers.push((HeaderNameView::Other(name), value)),
                ..self
            },
        }
    }
}

/// Tells whether `list` holds `value`, ASCII case aside.
fn list_holds(list: &Vec<String>, value: &str) -> (r: bool)
    ensures
        r == holds_address(texts(list@), value@),
{
    let mut i: usize = 0;
    while i < list.len()
        invariant
            i <= list.len(),
            forall|j: int| 0 <= j < i ==> !eq_ignore_case(#[trigger] texts(list@)[j], value@),
        decreases list.len() - i,
    {
        if text_eq_ignore_case(list[i].as_str(), value) {
            assert(eq_ignore_case(texts(list@)[i as int], value@));
            return true;
        }
        i += 1;
    }
    false
}

/// Offers `value` to the recipient list `name`; an address that one of the
/// three lists already holds, ASCII case aside, is not added again.
pub fn insert_address(params: &mut MailtoMessage, name: AddressField, value: String)
    ensures
        final(params)@ == old(params)@.with_address(name, value@),
{
    if !list_holds(&params.to, value.as_str()) && !list_holds(&params.cc, value.as_str())
        && !list_holds(&params.bcc, value.as_str()) {
        let ghost before = *params;
        match name {
            AddressField::To => {
                params.to.push(value);
                assert(texts(params.to@) =~= texts(before.to@).push(value@));
            },
            AddressField::Cc => {
                params.cc.push(value);
                assert(texts(params.cc@) =~= texts(before.cc@).push(value@));
            },
            AddressField::Bcc => {
                params.bcc.push(value);
                assert(texts(params.bcc@) =~= texts(before.bcc@).push(value@));
            },
        }
    }
}

} // verus!
