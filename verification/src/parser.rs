//! The way from bytes to a feed, and the errors on that way.
use vstd::prelude::*;
use crate::model::Feed;
use crate::model::FeedView;
use crate::util::attr_of;
use crate::util::attr_value;
use crate::util::document::children_of;
use crate::util::document::Event;
use crate::util::document::fault_in;
use crate::util::document::Node;
use crate::util::document::TagView;
use crate::util::element_source::document_events;
use crate::util::element_source::ElementSource;
use crate::util::element_source::Tag;
use crate::util::text::same_text;

pub mod atom;
pub mod rss0;
pub mod rss1;
pub mod rss2;
pub mod walk;

verus! {

/// Why a document could not be read as a feed.
#[derive(Debug)]
pub enum ParseErrorKind {
    /// No root element of a known dialect was found.
    NoFeedRoot,
    /// The type of a content element is no media type.
    UnknownMimeType(String),
    /// An element that has to hold text holds none.
    MissingContent(&'static str),
    /// The text of a date that has to be there could not be read as one.
    InvalidDateTime(String),
}

/// An error of `parse`.
#[derive(Debug)]
pub enum ParseFeedError {
    /// The document is XML, but no feed.
    ParseError(ParseErrorKind),
    /// The tokenizer gave up on the document.
    XmlReader(xml::reader::Error),
}

/// What the readers of a feed return.
pub type ParseFeedResult<T> = Result<T, ParseFeedError>;

impl From<xml::reader::Error> for ParseFeedError {
    fn from(err: xml::reader::Error) -> (error: ParseFeedError) {
        ParseFeedError::XmlReader(err)
    }
}

impl vstd::std_specs::convert::FromSpecImpl<xml::reader::Error> for ParseFeedError {
    open spec fn obeys_from_spec() -> bool {
        true
    }

    open spec fn from_spec(err: xml::reader::Error) -> ParseFeedError {
        ParseFeedError::XmlReader(err)
    }
}

/// `ParseErrorKind` over characters.
pub enum KindView {
    NoFeedRoot,
    UnknownMimeType(Seq<char>),
    MissingContent(Seq<char>),
    InvalidDateTime(Seq<char>),
}

/// `ParseFeedError` over characters: what is wrong with the feed, or the
/// error with which the tokenizer gave up.
pub enum Failure {
    Parse(KindView),
    Xml(xml::reader::Error),
}

impl View for ParseErrorKind {
    type V = KindView;

    open spec fn view(&self) -> KindView {
        match self {
            ParseErrorKind::NoFeedRoot => KindView::NoFeedRoot,
            ParseErrorKind::UnknownMimeType(text) => KindView::UnknownMimeType(text@),
            ParseErrorKind::MissingContent(field) => KindView::MissingContent(field@),
            ParseErrorKind::InvalidDateTime(text) => KindView::InvalidDateTime(text@),
        }
    }
}

impl View for ParseFeedError {
    type V = Failure;

    open spec fn view(&self) -> Failure {
        match self {
            ParseFeedError::ParseError(kind) => Failure::Parse(kind@),
            ParseFeedError::XmlReader(error) => Failure::Xml(*error),
        }
    }
}

/// The dialects that are read.
#[derive(Debug, Clone, Copy, PartialEq, Eq)]
pub enum Dialect {
    Atom,
    Rss2,
    Rss0,
    Rss1,
}

/// The dialect that a root element announces: `feed` is Atom, `RDF` is RSS
/// 1.0, `rss` is what its `version` says, and nothing without one that is
/// known.
pub open spec fn dialect_of(root: TagView) -> Option<Dialect> {
    if root.name == "feed"@ {
        Some(Dialect::Atom)
    } else if root.name == "rss"@ {
        match attr_of(root.attributes, "version"@) {
            Some(version) => if version == "2.0"@ {
                Some(Dialect::Rss2)
            } else if version == "0.91"@ || version == "0.92"@ {
                Some(Dialect::Rss0)
            } else {
                None
            },
            None => None,
        }
    } else if root.name == "RDF"@ {
        Some(Dialect::Rss1)
    } else {
        None
    }
}

/// Tells the dialect of a document from its root element.
pub fn dialect(root: &Tag) -> (res: Option<Dialect>)
    ensures
        res == dialect_of(root@),
{
    let name = root.name.as_str();
    if same_text(name, "feed") {
        Some(Dialect::Atom)
    } else if same_text(name, "rss") {
        match attr_value(&root.attributes, "version") {
            Some(version) => {
                if same_text(version, "2.0") {
                    Some(Dialect::Rss2)
                } else if same_text(version, "0.91") || same_text(version, "0.92") {
                    Some(Dialect::Rss0)
                } else {
                    None
                }
            },
            None => None,
        }
    } else if same_text(name, "RDF") {
        Some(Dialect::Rss1)
    } else {
        None
    }
}

/// The feed that a document with the given root holds.
pub open spec fn feed_of_root(root: Node) -> Result<FeedView, Failure> {
    match dialect_of(root.tag) {
        Some(Dialect::Atom) => atom::feed_of(root),
        Some(Dialect::Rss2) => rss2::feed_of(root),
        Some(Dialect::Rss0) => rss0::feed_of(root),
        Some(Dialect::Rss1) => rss1::feed_of(root),
        None => Err(Failure::Parse(KindView::NoFeedRoot)),
    }
}

/// The feed that a stream of events holds: the one of its first element. A
/// stream that ends without an element holds no feed; one that breaks off
/// before its first element fails with the error of the tokenizer.
pub open spec fn feed_of(events: Seq<Event>) -> Result<FeedView, Failure> {
    let roots = children_of(events);
    if roots.len() > 0 {
        feed_of_root(roots[0])
    } else {
        match fault_in(events) {
            Some(error) => Err(Failure::Xml(error)),
            None => Err(Failure::Parse(KindView::NoFeedRoot)),
        }
    }
}

/// What `parse` returns for `input`: the feed or the failure that the model
/// gives for the events that the tokenizer reads from it.
pub open spec fn parsed(input: Seq<u8>, res: Result<Feed, ParseFeedError>) -> bool {
    match res {
        Ok(feed) => feed_of(document_events(input, true, true, true)) == Ok::<FeedView, Failure>(
            feed@,
        ),
        Err(error) => feed_of(document_events(input, true, true, true)) == Err::<
            FeedView,
            Failure,
        >(error@),
    }
}

/// Reads the feed that a walk is about to run over.
pub fn parse_document(source: &mut ElementSource) -> (res: Result<Feed, ParseFeedError>)
    ensures
        match res {
            Ok(feed) => feed_of(old(source).pending()) == Ok::<FeedView, Failure>(feed@),
            Err(error) => feed_of(old(source).pending()) == Err::<FeedView, Failure>(error@),
        },
{
    let root = match source.root() {
        Ok(Some(root)) => root,
        Ok(None) => {
            return Err(ParseFeedError::ParseError(ParseErrorKind::NoFeedRoot));
        },
        Err(error) => {
            return Err(ParseFeedError::XmlReader(error));
        },
    };
    match dialect(&root) {
        Some(Dialect::Atom) => atom::parse(source, &root),
        Some(Dialect::Rss2) => rss2::parse(source, &root),
        Some(Dialect::Rss0) => rss0::parse(source, &root),
        Some(Dialect::Rss1) => rss1::parse(source, &root),
        None => Err(ParseFeedError::ParseError(ParseErrorKind::NoFeedRoot)),
    }
}

/// Reads a feed, in Atom or in a flavour of RSS, from the bytes of an XML
/// document.
pub fn parse(input: &[u8]) -> (res: Result<Feed, ParseFeedError>)
    ensures
        parsed(input@, res),
        res matches Ok(feed) ==> feed@.id.len() > 0 && forall|i: int|
            0 <= i < feed@.entries.len() ==> (#[trigger] feed@.entries[i]).id.len() > 0,
{
    let mut source = ElementSource::new(input);
    let res = parse_document(&mut source);
    proof {
        if res is Ok {
            law_identifiers(document_events(input@, true, true, true), res->Ok_0@);
        }
    }
    res
}

/// What the root element decides: a root named `feed` is read as Atom and a
/// root named `RDF` as RSS 1.0, whatever version they claim; a root named
/// `rss` is read as RSS 2.0 when its version is `2.0` and as RSS 0.9x when it
/// is `0.91` or `0.92`; every other root is no feed.
pub proof fn law_dispatch(root: Node)
    ensures
        root.tag.name == "feed"@ ==> feed_of_root(root) == atom::feed_of(root),
        root.tag.name == "RDF"@ ==> feed_of_root(root) == rss1::feed_of(root),
        root.tag.name == "rss"@ && attr_of(root.tag.attributes, "version"@) == Some("2.0"@)
            ==> feed_of_root(root) == rss2::feed_of(root),
        root.tag.name == "rss"@ && (attr_of(root.tag.attributes, "version"@) == Some("0.91"@)
            || attr_of(root.tag.attributes, "version"@) == Some("0.92"@)) ==> feed_of_root(root)
            == rss0::feed_of(root),
        root.tag.name != "feed"@ && root.tag.name != "RDF"@ && !(root.tag.name == "rss"@ && (
            attr_of(root.tag.attributes, "version"@) == Some("2.0"@) || attr_of(
                root.tag.attributes,
                "version"@,
            ) == Some("0.91"@) || attr_of(root.tag.attributes, "version"@) == Some("0.92"@)))
            ==> feed_of_root(root) == Err::<FeedView, Failure>(
            Failure::Parse(KindView::NoFeedRoot),
        ),
{
    reveal_strlit("feed");
    reveal_strlit("rss");
    reveal_strlit("RDF");
    reveal_strlit("2.0");
    reveal_strlit("0.91");
    reveal_strlit("0.92");
    assert("feed"@.len() == 4);
    assert("rss"@.len() == 3 && "RDF"@.len() == 3);
    assert("rss"@[0] != "RDF"@[0]);
    assert("2.0"@.len() == 3);
    assert("0.91"@.len() == 4 && "0.92"@.len() == 4);
}

/// Two results of `parse` on the same bytes are the same: both a feed, and
/// then the same feed with the same identifiers, or both a failure, and then
/// the same one.
pub proof fn law_parse_is_repeatable(
    input: Seq<u8>,
    first: Result<Feed, ParseFeedError>,
    second: Result<Feed, ParseFeedError>,
)
    requires
        parsed(input, first),
        parsed(input, second),
    ensures
        first matches Ok(feed) ==> second is Ok && second->Ok_0@ == feed@,
        first matches Err(error) ==> second is Err && second->Err_0@ == error@,
{
}

/// Every feed that a document holds has an identifier, and so has each of
/// its entries.
pub proof fn law_identifiers(events: Seq<Event>, feed: FeedView)
    requires
        feed_of(events) == Ok::<FeedView, Failure>(feed),
    ensures
        feed.id.len() > 0,
        forall|i: int| 0 <= i < feed.entries.len() ==> (#[trigger] feed.entries[i]).id.len() > 0,
{
    let root = children_of(events)[0];
    match dialect_of(root.tag) {
        Some(Dialect::Atom) => atom::law_entries_in_document_order(root, feed),
        Some(Dialect::Rss2) => rss2::law_entries_in_document_order(root, feed),
        Some(Dialect::Rss0) => rss0::law_entries_in_document_order(root, feed),
        Some(Dialect::Rss1) => rss1::law_entries_in_document_order(root, feed),
        None => {},
    }
}

} // verus!
