//! A forward-only walk over the elements of a document, one event at a time.
use vstd::prelude::*;
use xml::reader::EventReader;
use xml::reader::ParserConfig;
use xml::reader::XmlEvent;
use crate::util::document::AttributeView;
use crate::util::document::children_of;
use crate::util::document::element;
use crate::util::document::Event;
use crate::util::document::lemma_open_divides;
use crate::util::document::lemma_remainder_shrinks;
use crate::util::document::lemma_remainder_splits;
use crate::util::document::optional_view;
use crate::util::document::remainder;
use crate::util::document::TagView;
use crate::util::document::text_of;
use crate::util::document::views;

verus! {

/// The error with which the tokenizer of the `xml` crate gives up.
#[verifier::external_type_specification]
#[verifier::external_body]
pub struct ExXmlError(xml::reader::Error);

/// The tokenizer of the `xml` crate, bound to the bytes it reads. Verus sees
/// nothing of it but the events that it will still hand out,
/// [`pending_events`].
#[verifier::external_body]
pub struct EventStream<'a> {
    reader: EventReader<&'a [u8]>,
}

/// An attribute of a start tag.
#[derive(Debug, Clone, PartialEq, Eq)]
pub struct Attribute {
    pub name: String,
    pub namespace: Option<String>,
    pub value: String,
}

/// A start tag: the handle that the walk gives out for an element.
#[derive(Debug, Clone, PartialEq, Eq)]
pub struct Tag {
    pub name: String,
    pub namespace: Option<String>,
    pub attributes: Vec<Attribute>,
}

/// What the tokenizer hands out on one pull.
#[derive(Debug, Clone, PartialEq, Eq)]
pub enum Token {
    Open(Tag),
    Close,
    Text(String),
    Other,
    End,
}

impl View for Attribute {
    type V = AttributeView;

    open spec fn view(&self) -> AttributeView {
        AttributeView {
            name: self.name@,
            namespace: optional_view(self.namespace),
            value: self.value@,
        }
    }
}

impl View for Tag {
    type V = TagView;

    open spec fn view(&self) -> TagView {
        TagView {
            name: self.name@,
            namespace: optional_view(self.namespace),
            attributes: views(self.attributes@),
        }
    }
}

impl Token {
    /// The event that this token is; none for the end of the document, which
    /// is the end of the stream.
    pub open spec fn event(self) -> Option<Event> {
        match self {
            Token::Open(tag) => Some(Event::Open(tag@)),
            Token::Close => Some(Event::Close),
            Token::Text(text) => Some(Event::Text(text@)),
            Token::Other => Some(Event::Other),
            Token::End => None,
        }
    }
}

/// The events that the tokenizer of the `xml` crate reads from `input` under
/// the three settings given, up to the end of the document or to the first
/// error, which stands at the end as `Event::Fault` and holds the error that
/// the tokenizer reports there.
pub uninterp spec fn document_events(
    input: Seq<u8>,
    trim_whitespace: bool,
    cdata_to_characters: bool,
    ignore_comments: bool,
) -> Seq<Event>;

/// The events that a stream has not handed out yet.
pub uninterp spec fn pending_events(stream: &EventStream) -> Seq<Event>;

/// What one pull does to a stream: it hands out the first pending event and
/// keeps the rest; at a fault, which it hands out as the error, and at the
/// end of the document it stays.
pub open spec fn pulled(
    before: Seq<Event>,
    res: Result<Token, xml::reader::Error>,
    after: Seq<Event>,
) -> bool {
    match res {
        Err(error) => before.len() > 0 && before[0] == Event::Fault(error) && after == before,
        Ok(token) => match token.event() {
            None => before.len() == 0 && after.len() == 0,
            Some(event) => before.len() > 0 && before[0] == event && !(event is Fault) && after
                == before.skip(1),
        },
    }
}

/// Calls `ParserConfig::create_reader` of the `xml` crate on `input`, with the
/// three settings given and the crate's defaults for the others. Nothing is
/// read yet; the contract names the events that the reader will hand out.
#[verifier::external_body]
fn open_stream<'a>(
    input: &'a [u8],
    trim_whitespace: bool,
    cdata_to_characters: bool,
    ignore_comments: bool,
) -> (stream: EventStream<'a>)
    ensures
        pending_events(&stream) == document_events(
            input@,
            trim_whitespace,
            cdata_to_characters,
            ignore_comments,
        ),
{
    let config = ParserConfig::new().trim_whitespace(trim_whitespace).cdata_to_characters(
        cdata_to_characters,
    ).ignore_comments(ignore_comments);
    EventStream { reader: config.create_reader(input) }
}

/// Calls `EventReader::next` of the `xml` crate and hands out its event as a
/// `Token`: character data and CDATA as `Text`, the start and the end of an
/// element as `Open` and `Close`, the end of the document as `End`, and the
/// start of the document, processing instructions, comments and white space
/// as `Other`. The contract takes the reader for a queue of events, of which
/// each call takes the first. The crate documents that the reader repeats an
/// error and the end of the document on every later call: there the queue
/// stays as it is. An error comes back as it is reported: it is the one that
/// the fault at the head of the queue holds.
#[verifier::external_body]
fn next_token(stream: &mut EventStream) -> (res: Result<Token, xml::reader::Error>)
    ensures
        pulled(pending_events(old(stream)), res, pending_events(final(stream))),
{
    Ok(match stream.reader.next()? {
        XmlEvent::StartElement { name, attributes, .. } => Token::Open(Tag {
            name: name.local_name,
            namespace: name.namespace,
            attributes: attributes.into_iter().map(|a| Attribute { name: a.name.local_name, namespace: a.name.namespace, value: a.value }).collect(),
        }),
        XmlEvent::EndElement { .. } => Token::Close,
        XmlEvent::Characters(text) => Token::Text(text),
        XmlEvent::CData(text) => Token::Text(text),
        XmlEvent::EndDocument => Token::End,
        XmlEvent::StartDocument { .. } => Token::Other,
        XmlEvent::ProcessingInstruction { .. } => Token::Other,
        XmlEvent::Comment(_) => Token::Other,
        XmlEvent::Whitespace(_) => Token::Other,
    })
}

/// How a start tag that was just read divides what was pending before it:
/// `body` is what is pending now, the content of the element that `tag` opens.
pub open spec fn starts_child(before: Seq<Event>, tag: TagView, body: Seq<Event>) -> bool {
    &&& body.len() < before.len()
    &&& match remainder(body, 0) {
        Ok(rest) => {
            &&& rest.len() <= body.len()
            &&& children_of(before) == seq![element(tag, body)] + children_of(rest)
            &&& remainder(before, 0) == remainder(rest, 0)
        },
        Err(error) => {
            &&& children_of(before) == seq![element(tag, body)]
            &&& remainder(before, 0) == Err::<Seq<Event>, xml::reader::Error>(error)
        },
    }
}

/// That reading an element failed as the tokenizer did: with the fault that
/// comes before the end of the element.
pub open spec fn failed(before: Seq<Event>, error: xml::reader::Error) -> bool {
    remainder(before, 0) == Err::<Seq<Event>, xml::reader::Error>(error)
}

/// That an element was read to its end: `after` is what follows it.
pub open spec fn finished(before: Seq<Event>, after: Seq<Event>) -> bool {
    remainder(before, 0) == Ok::<Seq<Event>, xml::reader::Error>(after) && after.len()
        <= before.len()
}

/// The walk over a document. It stands inside one element at a time: what is
/// pending starts with the content of that element.
pub struct ElementSource<'a> {
    stream: EventStream<'a>,
}

impl<'a> ElementSource<'a> {
    /// The events that have not been read yet.
    pub closed spec fn pending(&self) -> Seq<Event> {
        pending_events(&self.stream)
    }

    /// A walk over the document in `input`. White space around text is
    /// trimmed, CDATA sections count as text, comments are left out.
    pub fn new(input: &'a [u8]) -> (source: Self)
        ensures
            source.pending() == document_events(input@, true, true, true),
    {
        ElementSource { stream: open_stream(input, true, true, true) }
    }

    /// The root element: the first element of the document. `None` when the
    /// document ends without one.
    pub fn root(&mut self) -> (res: Result<Option<Tag>, xml::reader::Error>)
        ensures
            match res {
                Ok(Some(tag)) => starts_child(old(self).pending(), tag@, final(self).pending()),
                Ok(None) => children_of(old(self).pending()).len() == 0 && finished(
                    old(self).pending(),
                    final(self).pending(),
                ),
                Err(error) => children_of(old(self).pending()).len() == 0 && failed(
                    old(self).pending(),
                    error,
                ),
            },
    {
        self.next_child()
    }

    /// The next child of the element that the walk stands in, or `None` when
    /// that element ends; the walk then stands behind its end tag. After
    /// `Some`, the walk stands inside the child.
    pub fn next_child(&mut self) -> (res: Result<Option<Tag>, xml::reader::Error>)
        ensures
            match res {
                Ok(Some(tag)) => starts_child(old(self).pending(), tag@, final(self).pending()),
                Ok(None) => children_of(old(self).pending()).len() == 0 && finished(
                    old(self).pending(),
                    final(self).pending(),
                ),
                Err(error) => children_of(old(self).pending()).len() == 0 && failed(
                    old(self).pending(),
                    error,
                ),
            },
    {
        let ghost start = self.pending();
        loop
            invariant
                start == old(self).pending(),
                children_of(self.pending()) == children_of(start),
                remainder(self.pending(), 0) == remainder(start, 0),
                self.pending().len() <= start.len(),
            decreases self.pending().len(),
        {
            let ghost before = self.pending();
            match next_token(&mut self.stream) {
                Err(e) => {
                    return Err(e);
                },
                Ok(Token::Open(tag)) => {
                    proof {
                        lemma_open_divides(before);
                        lemma_remainder_shrinks(before.skip(1), 0);
                    }
                    return Ok(Some(tag));
                },
                Ok(Token::Close) => {
                    return Ok(None);
                },
                Ok(Token::End) => {
                    assert(self.pending() =~= before);
                    return Ok(None);
                },
                Ok(_) => {},
            }
        }
    }

    /// The character data of the element that the walk stands in. Reads the
    /// element to its end and passes over the elements nested in it.
    pub fn text(&mut self) -> (res: Result<String, xml::reader::Error>)
        ensures
            match res {
                Ok(text) => text@ == text_of(old(self).pending()) && finished(
                    old(self).pending(),
                    final(self).pending(),
                ),
                Err(error) => failed(old(self).pending(), error),
            },
    {
        let ghost start = self.pending();
        let mut buffer = String::new();
        loop
            invariant
                start == old(self).pending(),
                text_of(start) == buffer@ + text_of(self.pending()),
                remainder(self.pending(), 0) == remainder(start, 0),
                self.pending().len() <= start.len(),
            decreases self.pending().len(),
        {
            let ghost before = self.pending();
            let ghost sofar = buffer@;
            match next_token(&mut self.stream) {
                Err(e) => {
                    return Err(e);
                },
                Ok(Token::Text(piece)) => {
                    buffer.append(piece.as_str());
                    assert(buffer@ + text_of(self.pending()) == sofar + text_of(before));
                },
                Ok(Token::Open(_)) => {
                    proof {
                        lemma_open_divides(before);
                    }
                    match self.skip() {
                        Err(e) => {
                            return Err(e);
                        },
                        Ok(()) => {},
                    }
                },
                Ok(Token::Close) => {
                    assert(buffer@ + Seq::<char>::empty() == buffer@);
                    return Ok(buffer);
                },
                Ok(Token::End) => {
                    assert(self.pending() =~= before);
                    assert(buffer@ + Seq::<char>::empty() == buffer@);
                    return Ok(buffer);
                },
                Ok(Token::Other) => {},
            }
        }
    }

    /// Reads the element that the walk stands in to its end, whatever it
    /// holds.
    pub fn skip(&mut self) -> (res: Result<(), xml::reader::Error>)
        ensures
            match res {
                Ok(()) => finished(old(self).pending(), final(self).pending()),
                Err(error) => failed(old(self).pending(), error),
            },
        decreases old(self).pending().len(),
    {
        let ghost start = self.pending();
        let mut depth: usize = 0;
        loop
            invariant
                start == old(self).pending(),
                remainder(self.pending(), depth as nat) == remainder(start, 0),
                self.pending().len() <= start.len(),
            decreases self.pending().len(),
        {
            let ghost before = self.pending();
            match next_token(&mut self.stream) {
                Err(e) => {
                    return Err(e);
                },
                Ok(Token::Open(_)) => {
                    if depth < usize::MAX {
                        depth = depth + 1;
                    } else {
                        // The counter is full: the nested element gets a walk of its own.
                        proof {
                            lemma_remainder_splits(self.pending(), 0, depth as nat);
                        }
                        match self.skip() {
                            Err(e) => {
                                return Err(e);
                            },
                            Ok(()) => {},
                        }
                    }
                },
                Ok(Token::Close) => {
                    if depth == 0 {
                        return Ok(());
                    }
                    depth = depth - 1;
                },
                Ok(Token::End) => {
                    assert(self.pending() =~= before);
                    return Ok(());
                },
                Ok(_) => {},
            }
        }
    }
}

} // verus!
