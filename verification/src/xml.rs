//! Reading a document's markup: the tags of an XML text, in order, with
//! their attributes decoded.

use quick_xml::events::attributes::Attribute as TagAttribute;
use quick_xml::events::attributes::Attributes;
use quick_xml::events::Event;
use quick_xml::name::QName;
use quick_xml::Reader;
use quick_xml::XmlVersion;
use std::borrow::Cow;
use vstd::prelude::*;

use crate::text::first_position;

verus! {

/// `quick_xml::Reader`, of which nothing is known but what the functions below say.
#[verifier::external_type_specification]
#[verifier::external_body]
#[verifier::reject_recursive_types(R)]
pub struct ExReader<R>(Reader<R>);

/// One thing that a reader hands out before the end of its input.
#[derive(Debug, Clone, PartialEq, Eq)]
pub enum RawEvent {
    /// An opening tag: its name as written, and the text that follows the name.
    Open { name: String, attributes: String },
    /// A closing tag.
    Close,
    /// Text, a comment, a declaration, or anything else that is no tag.
    Other,
    /// The reader reported an error.
    Failure,
}

/// What a `RawEvent` is, apart from how it is stored.
pub enum RawEventView {
    Open { name: Seq<char>, attributes: Seq<char> },
    Close,
    Other,
    Failure,
}

impl DeepView for RawEvent {
    type V = RawEventView;

    open spec fn deep_view(&self) -> RawEventView {
        match self {
            RawEvent::Open { name, attributes } => RawEventView::Open {
                name: name@,
                attributes: attributes@,
            },
            RawEvent::Close => RawEventView::Close,
            RawEvent::Other => RawEventView::Other,
            RawEvent::Failure => RawEventView::Failure,
        }
    }
}

/// An attribute: a name and a value.
#[derive(Debug, Clone, PartialEq, Eq)]
pub struct Attribute {
    pub name: String,
    pub value: String,
}

/// What an `Attribute` is, apart from how it is stored.
pub struct AttributeView {
    pub name: Seq<char>,
    pub value: Seq<char>,
}

impl DeepView for Attribute {
    type V = AttributeView;

    open spec fn deep_view(&self) -> AttributeView {
        AttributeView { name: self.name@, value: self.value@ }
    }
}

/// A tag with its attributes decoded: names without their prefixes, values
/// with their references resolved.
#[derive(Debug, Clone, PartialEq, Eq)]
pub enum Token {
    Open { name: String, attributes: Vec<Attribute> },
    Close,
}

/// What a `Token` is, apart from how it is stored.
pub enum TokenView {
    Open { name: Seq<char>, attributes: Seq<AttributeView> },
    Close,
}

impl DeepView for Token {
    type V = TokenView;

    open spec fn deep_view(&self) -> TokenView {
        match self {
            Token::Open { name, attributes } => TokenView::Open {
                name: name@,
                attributes: attributes.deep_view(),
            },
            Token::Close => TokenView::Close,
        }
    }
}

/// What a reader has yet to hand out, in order, up to the end of its input.
pub uninterp spec fn reader_pending(reader: &Reader<&[u8]>) -> Seq<RawEventView>;

/// What a fresh reader over `text` hands out, in order, up to the end of the
/// text, when it reports an empty-element tag as an opening tag and a closing tag.
pub uninterp spec fn xml_events(text: Seq<char>) -> Seq<RawEventView>;

/// The attributes that the text behind a tag's name spells out, each with
/// its name and its value as written; `None` where the text is no list of
/// attributes, or names one twice.
pub uninterp spec fn xml_attributes(raw: Seq<char>) -> Option<Seq<AttributeView>>;

/// An attribute's value with its references resolved and its white space
/// normalized; `None` where a reference in it cannot be resolved.
pub uninterp spec fn xml_normalized(raw: Seq<char>) -> Option<Seq<char>>;

/// A value as it is written between the quotes of an attribute: with
/// references in place of the characters that cannot stand there.
pub uninterp spec fn xml_escaped(raw: Seq<char>) -> Seq<char>;

/// Holds of the colon.
pub open spec fn colon() -> spec_fn(char) -> bool {
    |c: char| c == ':'
}

/// The part of a qualified name behind its first colon; the whole name where
/// it has none.
pub open spec fn local_part(name: Seq<char>) -> Seq<char> {
    match first_position(name, colon(), 0) {
        Some(i) => name.skip(i + 1),
        None => name,
    }
}

/// `quick_xml::Reader::from_str`, with `expand_empty_elements` switched on:
/// the new reader has the whole of `text` before it.
#[verifier::external_body]
fn open_reader(text: &str) -> (reader: Reader<&[u8]>)
    ensures
        reader_pending(&reader) == xml_events(text@),
{
    let mut reader = Reader::from_str(text);
    reader.config_mut().expand_empty_elements = true;
    reader
}

/// `quick_xml::Reader::read_event`: hands out the first of what is pending
/// and leaves the rest; at the end of the input it hands out nothing, and
/// goes on doing so.
#[verifier::external_body]
fn next_event(reader: &mut Reader<&[u8]>) -> (r: Option<RawEvent>)
    ensures
        match r {
            Some(event) => reader_pending(old(reader)).len() > 0 && event.deep_view()
                == reader_pending(old(reader))[0] && reader_pending(final(reader))
                == reader_pending(old(reader)).drop_first(),
            None => reader_pending(old(reader)).len() == 0 && reader_pending(final(reader))
                == reader_pending(old(reader)),
        },
{
    match reader.read_event() {
        Ok(Event::Start(tag)) => Some(
            RawEvent::Open {
                name: tag.name().0.to_owned(),
                attributes: tag.attributes_raw().to_owned(),
            },
        ),
        Ok(Event::End(_)) => Some(RawEvent::Close),
        Ok(Event::Eof) => None,
        Ok(_) => Some(RawEvent::Other),
        Err(_) => Some(RawEvent::Failure),
    }
}

/// `quick_xml::events::attributes::Attributes`, from `new` to the last
/// `next`: the attributes in the order in which they are written.
#[verifier::external_body]
fn split_attributes(raw: &str) -> (r: Option<Vec<Attribute>>)
    ensures
        r.deep_view() == xml_attributes(raw@),
{
    Attributes::new(raw, 0).map(
        |a| a.ok().map(|a| Attribute { name: a.key.0.to_owned(), value: a.value.into_owned() }),
    ).collect()
}

/// `quick_xml::events::attributes::Attribute::normalized_value`, by the
/// rules of XML 1.0.
#[verifier::external_body]
fn normalize_value(raw: &str) -> (r: Option<String>)
    ensures
        r.deep_view() == xml_normalized(raw@),
{
    let attribute = TagAttribute { key: QName(""), value: Cow::Borrowed(raw) };
    attribute.normalized_value(XmlVersion::Implicit1_0).ok().map(|v| v.into_owned())
}

/// `quick_xml::name::QName::local_name`: removes everything up to and
/// including the first colon.
#[verifier::external_body]
fn local_name(name: &str) -> (r: String)
    ensures
        r@ == local_part(name@),
{
    QName(name).local_name().into_inner().to_owned()
}

/// `quick_xml::events::attributes::Attribute`'s `From<(&str, &str)>`, which
/// escapes the value it is given: the same value gives the same text.
#[verifier::external_body]
pub(crate) fn escape_value(raw: &str) -> (r: String)
    ensures
        r@ == xml_escaped(raw@),
{
    TagAttribute::from(("", raw)).value.into_owned()
}

/// The attributes `raw` with each name cut down to its local part and each
/// value normalized; `None` where a value cannot be normalized.
pub open spec fn decoded_attributes(raw: Seq<AttributeView>) -> Option<Seq<AttributeView>>
    decreases raw.len(),
{
    if raw.len() == 0 {
        Some(Seq::empty())
    } else {
        match decoded_attributes(raw.drop_last()) {
            None => None,
            Some(decoded) => match xml_normalized(raw.last().value) {
                None => None,
                Some(value) => Some(
                    decoded.push(AttributeView { name: local_part(raw.last().name), value }),
                ),
            },
        }
    }
}

/// The decoded attributes of a tag, from the text behind the tag's name.
pub open spec fn tag_attributes(raw: Seq<char>) -> Option<Seq<AttributeView>> {
    match xml_attributes(raw) {
        None => None,
        Some(list) => decoded_attributes(list),
    }
}

/// The tags among `events`, decoded; `None` where the reader failed or a tag
/// is ill-formed.
pub open spec fn tokens_of(events: Seq<RawEventView>) -> Option<Seq<TokenView>>
    decreases events.len(),
{
    if events.len() == 0 {
        Some(Seq::empty())
    } else {
        match tokens_of(events.drop_last()) {
            None => None,
            Some(tokens) => match events.last() {
                RawEventView::Open { name, attributes } => match tag_attributes(attributes) {
                    None => None,
                    Some(decoded) => Some(
                        tokens.push(
                            TokenView::Open { name: local_part(name), attributes: decoded },
                        ),
                    ),
                },
                RawEventView::Close => Some(tokens.push(TokenView::Close)),
                RawEventView::Other => Some(tokens),
                RawEventView::Failure => None,
            },
        }
    }
}

/// The tags of the document `text`.
pub open spec fn document_tokens(text: Seq<char>) -> Option<Seq<TokenView>> {
    tokens_of(xml_events(text))
}

proof fn lemma_decoded_prefix(raw: Seq<AttributeView>, i: int)
    requires
        0 <= i <= raw.len(),
        decoded_attributes(raw.take(i)) is None,
    ensures
        decoded_attributes(raw) is None,
    decreases raw.len(),
{
    if i < raw.len() {
        assert(raw.drop_last().take(i) =~= raw.take(i));
        lemma_decoded_prefix(raw.drop_last(), i);
    } else {
        assert(raw.take(i) =~= raw);
    }
}

proof fn lemma_tokens_prefix(events: Seq<RawEventView>, i: int)
    requires
        0 <= i <= events.len(),
        tokens_of(events.take(i)) is None,
    ensures
        tokens_of(events) is None,
    decreases events.len(),
{
    if i < events.len() {
        assert(events.drop_last().take(i) =~= events.take(i));
        lemma_tokens_prefix(events.drop_last(), i);
    } else {
        assert(events.take(i) =~= events);
    }
}

fn decode_attributes(raw: &Vec<Attribute>) -> (r: Option<Vec<Attribute>>)
    ensures
        r.deep_view() == decoded_attributes(raw.deep_view()),
{
    let mut decoded: Vec<Attribute> = Vec::new();
    let mut i: usize = 0;
    while i < raw.len()
        invariant
            i <= raw.len(),
            decoded_attributes(raw.deep_view().take(i as int)) == Some(decoded.deep_view()),
        decreases raw.len() - i,
    {
        let ghost all = raw.deep_view();
        proof {
            assert(all.take(i + 1).drop_last() =~= all.take(i as int));
            assert(all.take(i + 1).last() == raw[i as int].deep_view());
        }
        match normalize_value(raw[i].value.as_str()) {
            None => {
                proof {
                    lemma_decoded_prefix(all, i + 1);
                }
                return None;
            },
            Some(value) => {
                let ghost before = decoded.deep_view();
                let name = local_name(raw[i].name.as_str());
                decoded.push(Attribute { name, value });
                assert(decoded.deep_view() =~= before.push(
                    AttributeView {
                        name: local_part(raw[i as int].name@),
                        value: xml_normalized(raw[i as int].value@)->0,
                    },
                ));
            },
        }
        i += 1;
    }
    assert(raw.deep_view().take(i as int) =~= raw.deep_view());
    Some(decoded)
}

/// Reads the tags of a document. `None` stands for a text that is not
/// well-formed as far as the reader sees it: a tag cut short, a closing tag
/// that closes nothing or another tag than the one open, an attribute
/// without a value or given twice, a reference that cannot be resolved.
pub fn tokenize(text: &str) -> (r: Option<Vec<Token>>)
    ensures
        r.deep_view() == document_tokens(text@),
{
    let mut reader = open_reader(text);
    let mut tokens: Vec<Token> = Vec::new();
    let ghost mut seen: Seq<RawEventView> = Seq::empty();
    loop
        invariant
            xml_events(text@) == seen + reader_pending(&reader),
            tokens_of(seen) == Some(tokens.deep_view()),
        ensures
            xml_events(text@) == seen,
            tokens_of(seen) == Some(tokens.deep_view()),
        decreases reader_pending(&reader).len(),
    {
        let ghost pending = reader_pending(&reader);
        let ghost before = tokens.deep_view();
        match next_event(&mut reader) {
            None => {
                assert(seen + pending =~= seen);
                break;
            },
            Some(event) => {
                let ghost longer = seen.push(event.deep_view());
                proof {
                    assert(longer.drop_last() =~= seen);
                    assert(longer + pending.drop_first() =~= seen + pending);
                    assert((seen + pending).take(longer.len() as int) =~= longer);
                }
                match event {
                    RawEvent::Open { name, attributes } => {
                        let raw = match split_attributes(attributes.as_str()) {
                            None => {
                                proof {
                                    lemma_tokens_prefix(seen + pending, longer.len() as int);
                                }
                                return None;
                            },
                            Some(raw) => raw,
                        };
                        let decoded = match decode_attributes(&raw) {
                            None => {
                                proof {
                                    lemma_tokens_prefix(seen + pending, longer.len() as int);
                                }
                                return None;
                            },
                            Some(decoded) => decoded,
                        };
                        let local = local_name(name.as_str());
                        tokens.push(Token::Open { name: local, attributes: decoded });
                        assert(tokens.deep_view() =~= before.push(
                            TokenView::Open {
                                name: local_part(name@),
                                attributes: decoded.deep_view(),
                            },
                        ));
                    },
                    RawEvent::Close => {
                        tokens.push(Token::Close);
                        assert(tokens.deep_view() =~= before.push(TokenView::Close));
                    },
                    RawEvent::Other => {},
                    RawEvent::Failure => {
                        proof {
                            lemma_tokens_prefix(seen + pending, longer.len() as int);
                        }
                        return None;
                    },
                }
                proof {
                    seen = longer;
                }
            },
        }
    }
    Some(tokens)
}

} // verus!
