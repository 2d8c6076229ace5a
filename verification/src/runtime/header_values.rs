//! The values of a header as a test sees them: its text, or one of the
//! views of a MIME header.

use vstd::prelude::*;
use vstd::string::StrSliceExecFns;
use vstd::utf8::encode_utf8;
use crate::compiler::predicates::{MimeOpts, MimeOptsView};
use crate::mailto::{texts, HeaderNameView};
use crate::runtime::message::{ContentType, Header, HeaderValue, Message};
use crate::runtime::notify::opt_text;
use crate::text::{eq_ignore_case, text_eq_ignore_case};

verus! {

/// The model of a [`ContentType`].
pub struct ContentTypeView {
    pub c_type: Seq<char>,
    pub c_subtype: Option<Seq<char>>,
    pub attributes: Option<Seq<(Seq<char>, Seq<char>)>>,
}

/// The names and values of a list of attributes.
pub open spec fn attribute_texts(attributes: Seq<(String, String)>) -> Seq<(Seq<char>, Seq<char>)> {
    Seq::new(attributes.len(), |i: int| (attributes[i].0@, attributes[i].1@))
}

impl View for ContentType {
    type V = ContentTypeView;

    open spec fn view(&self) -> ContentTypeView {
        ContentTypeView {
            c_type: self.c_type@,
            c_subtype: opt_text(self.c_subtype),
            attributes: match self.attributes {
                Some(a) => Some(attribute_texts(a@)),
                None => None,
            },
        }
    }
}

/// The model of an optional content type.
pub open spec fn content_view(ct: Option<ContentType>) -> Option<ContentTypeView> {
    match ct {
        Some(ct) => Some(ct@),
        None => None,
    }
}

/// The text that the mail parser reads from the raw bytes of an unstructured
/// header, if it reads one.
pub uninterp spec fn unstructured_text(raw: Seq<u8>) -> Option<Seq<char>>;

/// The content type that the mail parser reads from the raw bytes of a
/// header, if it reads one.
pub uninterp spec fn content_type_of(raw: Seq<u8>) -> Option<ContentTypeView>;

/// `MessageStream::parse_unstructured` of mail_parser, on a stream over
/// `raw`: the decoded text of the header value, or nothing when the value
/// is empty or not ended by a line break.
#[verifier::external_body]
fn parse_unstructured(raw: &[u8]) -> (r: Option<String>)
    ensures
        opt_text(r) == unstructured_text(raw@),
{
    match mail_parser::parsers::MessageStream::new(raw).parse_unstructured() {
        mail_parser::HeaderValue::Text(text) => Some(text.into_owned()),
        _ => None,
    }
}

/// `MessageStream::parse_content_type` of mail_parser, on a stream over
/// `raw`: the type, the subtype and the attributes that it reads, or
/// nothing when it reads no type.
#[verifier::external_body]
fn parse_content_type(raw: &[u8]) -> (r: Option<ContentType>)
    ensures
        content_view(r) == content_type_of(raw@),
{
    match mail_parser::parsers::MessageStream::new(raw).parse_content_type() {
        mail_parser::HeaderValue::ContentType(ct) => Some(
            ContentType {
                c_type: ct.c_type.into_owned(),
                c_subtype: ct.c_subtype.map(|s| s.into_owned()),
                attributes: ct.attributes.map(
                    |a| a.into_iter().map(|(k, v)| (k.into_owned(), v.into_owned())).collect(),
                ),
            },
        ),
        _ => None,
    }
}

/// Whether the parser keeps the text of the header as its value.
pub open spec fn keeps_text(name: HeaderNameView) -> bool {
    ||| name == HeaderNameView::Rfc("Subject"@)
    ||| name == HeaderNameView::Rfc("Comments"@)
    ||| name == HeaderNameView::Rfc("Content-Description"@)
    ||| name == HeaderNameView::Rfc("Content-Location"@)
    ||| name == HeaderNameView::Rfc("Content-Transfer-Encoding"@)
}

/// The raw bytes of the value of a header; none when its offsets lie
/// outside the message.
pub open spec fn raw_value(message: Message, header: Header) -> Seq<u8> {
    if header.offset_start <= header.offset_end <= message.raw_message@.len() {
        message.raw_message@.subrange(header.offset_start as int, header.offset_end as int)
    } else {
        Seq::empty()
    }
}

/// The values of the attributes called `param`, ASCII case aside, in their
/// order.
pub open spec fn attribute_values(
    param: Seq<char>,
    attributes: Seq<(Seq<char>, Seq<char>)>,
) -> Seq<Seq<char>>
    decreases attributes.len(),
{
    if attributes.len() == 0 {
        Seq::empty()
    } else if eq_ignore_case(param, attributes.last().0) {
        attribute_values(param, attributes.drop_last()).push(attributes.last().1)
    } else {
        attribute_values(param, attributes.drop_last())
    }
}

/// The values of the attributes called as one of `params`, parameter by
/// parameter.
pub open spec fn param_values(
    params: Seq<Seq<char>>,
    attributes: Seq<(Seq<char>, Seq<char>)>,
) -> Seq<Seq<char>>
    decreases params.len(),
{
    if params.len() == 0 {
        Seq::empty()
    } else {
        param_values(params.drop_last(), attributes) + attribute_values(params.last(), attributes)
    }
}

/// A view of a MIME header with the texts of its strings.
pub open spec fn opts_texts(opts: MimeOptsView<String>) -> MimeOptsView<Seq<char>> {
    match opts {
        MimeOptsView::Type => MimeOptsView::Type,
        MimeOptsView::Subtype => MimeOptsView::Subtype,
        MimeOptsView::ContentType => MimeOptsView::ContentType,
        MimeOptsView::Param(params) => MimeOptsView::Param(texts(params)),
        MimeOptsView::Absent => MimeOptsView::Absent,
    }
}

/// What a view of a MIME header shows of a content type: its type, its
/// subtype, both with a slash between them, or the values of the named
/// parameters followed by the empty text. A header without a content type
/// shows the empty text.
pub open spec fn mime_values(opts: MimeOptsView<Seq<char>>, ct: Option<ContentTypeView>) -> Seq<
    Seq<char>,
> {
    match ct {
        None => seq![Seq::empty()],
        Some(ct) => match opts {
            MimeOptsView::Type => seq![ct.c_type],
            MimeOptsView::Subtype => seq![
                match ct.c_subtype {
                    Some(s) => s,
                    None => Seq::empty(),
                },
            ],
            MimeOptsView::ContentType => seq![
                match ct.c_subtype {
                    Some(s) => ct.c_type + "/"@ + s,
                    None => ct.c_type,
                },
            ],
            MimeOptsView::Param(params) => (match ct.attributes {
                Some(attributes) => param_values(params, attributes),
                None => Seq::empty(),
            }).push(Seq::empty()),
            MimeOptsView::Absent => seq![Seq::empty()],
        },
    }
}

/// The text of a header of the message: the text that the parser kept, for
/// the headers of which it keeps the text, and else the text read anew from
/// the raw bytes, which is empty when there is none to read.
pub open spec fn plain_value(message: Message, header: Header) -> Seq<char> {
    match header.value {
        HeaderValue::Text(text) if keeps_text(header.name@) => text@,
        _ => match unstructured_text(raw_value(message, header)) {
            Some(text) => text,
            None => Seq::empty(),
        },
    }
}

/// The values of a header as a test sees them, in the order in which it
/// looks at them. A header that a script has added, known by its end offset
/// of 0, has its text only, from which a content type is read when a view
/// of a MIME header is asked for.
pub open spec fn header_values(
    message: Message,
    header: Header,
    opts: MimeOptsView<Seq<char>>,
) -> Seq<Seq<char>> {
    if header.offset_end != 0 {
        if opts is Absent {
            seq![plain_value(message, header)]
        } else {
            mime_values(
                opts,
                match header.value {
                    HeaderValue::ContentType(ct) => Some(ct@),
                    _ => None,
                },
            )
        }
    } else {
        match header.value {
            HeaderValue::Text(text) => if opts is Absent {
                seq![text@]
            } else {
                mime_values(opts, content_type_of(encode_utf8(text@).push(0x0au8)))
            },
            _ => Seq::empty(),
        }
    }
}

/// Adds the values of the attributes called `param` to `out`.
fn add_attribute_values(param: &str, attributes: &Vec<(String, String)>, out: &mut Vec<String>)
    ensures
        texts(final(out)@) == texts(old(out)@) + attribute_values(
            param@,
            attribute_texts(attributes@),
        ),
{
    let ghost all = attribute_texts(attributes@);
    let mut i: usize = 0;
    assert(texts(out@) =~= texts(old(out)@) + attribute_values(param@, all.take(0)));
    while i < attributes.len()
        invariant
            i <= attributes.len(),
            all == attribute_texts(attributes@),
            texts(out@) == texts(old(out)@) + attribute_values(param@, all.take(i as int)),
        decreases attributes.len() - i,
    {
        let ghost before = out@;
        assert(all.take(i + 1).drop_last() == all.take(i as int));
        assert(all.take(i + 1).last() == all[i as int]);
        if text_eq_ignore_case(param, attributes[i].0.as_str()) {
            let value = attributes[i].1.clone();
            out.push(value);
            assert(texts(out@) =~= texts(before).push(value@));
            assert(texts(out@) =~= texts(old(out)@) + attribute_values(
                param@,
                all.take(i + 1),
            ));
        }
        i += 1;
    }
    assert(all.take(all.len() as int) == all);
}

/// What a view of a MIME header shows of a content type.
fn mime_view(opts: &MimeOpts<String>, ct: Option<&ContentType>) -> (r: Vec<String>)
    ensures
        texts(r@) == mime_values(
            opts_texts(opts@),
            match ct {
                Some(ct) => Some(ct@),
                None => None,
            },
        ),
{
    let mut out: Vec<String> = Vec::new();
    match ct {
        None => {
            out.push(String::new());
            assert(texts(out@) =~= seq![Seq::<char>::empty()]);
        },
        Some(ct) => match opts {
            MimeOpts::Type => {
                out.push(ct.c_type.clone());
                assert(texts(out@) =~= seq![ct.c_type@]);
            },
            MimeOpts::Subtype => {
                match &ct.c_subtype {
                    Some(s) => {
                        out.push(s.clone());
                        assert(texts(out@) =~= seq![s@]);
                    },
                    None => {
                        out.push(String::new());
                        assert(texts(out@) =~= seq![Seq::<char>::empty()]);
                    },
                }
            },
            MimeOpts::ContentType => {
                match &ct.c_subtype {
                    Some(s) => {
                        let mut both = ct.c_type.clone();
                        push_str(&mut both, "/");
                        push_str(&mut both, s.as_str());
                        out.push(both);
                        assert(texts(out@) =~= seq![ct.c_type@ + "/"@ + s@]);
                    },
                    None => {
                        out.push(ct.c_type.clone());
                        assert(texts(out@) =~= seq![ct.c_type@]);
                    },
                }
            },
            MimeOpts::Param(params) => {
                match &ct.attributes {
                    Some(attributes) => {
                        let ghost names = texts(params@);
                        let ghost attrs = attribute_texts(attributes@);
                        let mut i: usize = 0;
                        assert(texts(out@) =~= param_values(names.take(0), attrs));
                        while i < params.len()
                            invariant
                                i <= params.len(),
                                names == texts(params@),
                                attrs == attribute_texts(attributes@),
                                texts(out@) == param_values(names.take(i as int), attrs),
                            decreases params.len() - i,
                        {
                            assert(names.take(i + 1).drop_last() == names.take(i as int));
                            assert(names.take(i + 1).last() == params@[i as int]@);
                            add_attribute_values(params[i].as_str(), attributes, &mut out);
                            i += 1;
                        }
                        assert(names.take(names.len() as int) == names);
                    },
                    None => {
                        assert(texts(out@) =~= Seq::<Seq<char>>::empty());
                    },
                }
                let ghost before = out@;
                out.push(String::new());
                assert(texts(out@) =~= texts(before).push(Seq::<char>::empty()));
            },
            MimeOpts::Absent => {
                out.push(String::new());
                assert(texts(out@) =~= seq![Seq::<char>::empty()]);
            },
        },
    }
    out
}

/// Appends a text to a string.
fn push_str(s: &mut String, more: &str)
    ensures
        final(s)@ == old(s)@ + more@,
{
    vstd::string::StringExecFns::append(s, more);
}

impl Message {
    /// The raw bytes of the value of a header.
    fn raw_of(&self, header: &Header) -> (r: Vec<u8>)
        ensures
            r@ == raw_value(*self, *header),
    {
        let mut raw: Vec<u8> = Vec::new();
        if header.offset_start <= header.offset_end && header.offset_end <= self.raw_message.len() {
            let mut i = header.offset_start;
            while i < header.offset_end
                invariant
                    header.offset_start <= i <= header.offset_end <= self.raw_message.len(),
                    raw@ == self.raw_message@.subrange(header.offset_start as int, i as int),
                decreases header.offset_end - i,
            {
                raw.push(self.raw_message[i]);
                assert(raw@ =~= self.raw_message@.subrange(header.offset_start as int, i + 1));
                i += 1;
            }
        }
        raw
    }

    /// The values of a header as a test sees them, in the order in which it
    /// looks at them.
    pub fn find_header_values(&self, header: &Header, opts: &MimeOpts<String>) -> (r: Vec<String>)
        ensures
            texts(r@) == header_values(*self, *header, opts_texts(opts@)),
    {
        let plain = match opts {
            MimeOpts::Absent => true,
            _ => false,
        };
        let mut out: Vec<String> = Vec::new();
        if header.offset_end != 0 {
            if plain {
                let keeps = header.name.is_rfc("Subject") || header.name.is_rfc("Comments")
                    || header.name.is_rfc("Content-Description") || header.name.is_rfc(
                    "Content-Location",
                ) || header.name.is_rfc("Content-Transfer-Encoding");
                match &header.value {
                    HeaderValue::Text(text) if keeps => {
                        out.push(text.clone());
                        assert(texts(out@) =~= seq![text@]);
                    },
                    _ => {
                        let raw = self.raw_of(header);
                        match parse_unstructured(raw.as_slice()) {
                            Some(text) => {
                                out.push(text);
                                assert(texts(out@) =~= seq![text@]);
                            },
                            None => {
                                out.push(String::new());
                                assert(texts(out@) =~= seq![Seq::<char>::empty()]);
                            },
                        }
                    },
                }
                out
            } else {
                match &header.value {
                    HeaderValue::ContentType(ct) => mime_view(opts, Some(ct)),
                    _ => mime_view(opts, None),
                }
            }
        } else {
            match &header.value {
                HeaderValue::Text(text) => {
                    if plain {
                        out.push(text.clone());
                        assert(texts(out@) =~= seq![text@]);
                        out
                    } else {
                        let mut raw = text.as_str().as_bytes_vec();
                        raw.push(0x0a);
                        let parsed = parse_content_type(raw.as_slice());
                        mime_view(opts, parsed.as_ref())
                    }
                },
                _ => {
                    assert(texts(out@) =~= Seq::<Seq<char>>::empty());
                    out
                },
            }
        }
    }
}

} // verus!
