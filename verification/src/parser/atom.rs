//! The mapping of Atom onto the feed model.
use vstd::prelude::*;
use crate::model::Category;
use crate::model::CategoryView;
use crate::model::Content;
use crate::model::ContentView;
use crate::model::Entry;
use crate::model::EntryView;
use crate::model::Feed;
use crate::model::FeedView;
use crate::model::Generator;
use crate::model::GeneratorView;
use crate::model::Image;
use crate::model::ImageView;
use crate::model::Link;
use crate::model::LinkView;
use crate::model::MimeType;
use crate::model::Person;
use crate::model::PersonView;
use crate::model::Text;
use crate::model::TextType;
use crate::model::TextView;
use crate::parser::Failure;
use crate::parser::KindView;
use crate::parser::ParseErrorKind;
use crate::parser::ParseFeedError;
use crate::parser::walk::attr_text;
use crate::parser::walk::belongs_to;
use crate::parser::walk::fold;
use crate::parser::walk::handled;
use crate::parser::walk::identified_entry;
use crate::parser::walk::identified_feed;
use crate::parser::walk::identify_entry;
use crate::parser::walk::identify_feed;
use crate::parser::walk::ignore;
use crate::parser::walk::ignored;
use crate::parser::walk::in_namespace;
use crate::parser::walk::in_order;
use crate::parser::walk::lemma_fold_child;
use crate::parser::walk::lemma_identified;
use crate::parser::walk::lemma_in_order_first;
use crate::parser::walk::named_children;
use crate::parser::walk::read_required_text;
use crate::parser::walk::read_text;
use crate::parser::walk::required_text;
use crate::parser::walk::text_field;
use crate::util::attr_of;
use crate::util::attr_value;
use crate::util::document::children_of;
use crate::util::document::element;
use crate::util::document::fault_in;
use crate::util::document::lemma_views_push;
use crate::util::document::Node;
use crate::util::document::optional_view;
use crate::util::document::remainder;
use crate::util::document::TagView;
use crate::util::element_source::ElementSource;
use crate::util::element_source::Tag;
use crate::util::mime::is_media_type;
use crate::util::number::decimal;
use crate::util::number::parse_decimal;
use crate::util::text::same_text;
use crate::util::timestamp::iso_date;
use crate::util::timestamp::parse_iso_date;

verus! {

/// The namespace of Atom.
pub open spec fn namespace() -> Seq<char> {
    "http://www.w3.org/2005/Atom"@
}

fn is_atom(tag: &Tag) -> (res: bool)
    ensures
        res == in_namespace(tag@, namespace()),
{
    belongs_to(tag, "http://www.w3.org/2005/Atom")
}

/// How the `type` attribute of a text construct classifies its value.
pub open spec fn text_type_of(tag: TagView) -> TextType {
    match attr_of(tag.attributes, "type"@) {
        Some(kind) => if kind == "html"@ {
            TextType::Html
        } else if kind == "xhtml"@ {
            TextType::Xhtml
        } else {
            TextType::Text
        },
        None => TextType::Text,
    }
}

/// A text construct: a title, a subtitle, a summary, the rights.
pub open spec fn text_construct(node: Node) -> Result<TextView, Failure> {
    if node.intact() {
        Ok(TextView { content_type: text_type_of(node.tag), value: node.text })
    } else {
        Err(Failure::Xml(node.fault->0))
    }
}

fn text_type(tag: &Tag) -> (kind: TextType)
    ensures
        kind == text_type_of(tag@),
{
    match attr_value(&tag.attributes, "type") {
        Some(kind) => {
            if same_text(kind, "html") {
                TextType::Html
            } else if same_text(kind, "xhtml") {
                TextType::Xhtml
            } else {
                TextType::Text
            }
        },
        None => TextType::Text,
    }
}

/// Reads a text construct.
pub fn parse_text(source: &mut ElementSource, tag: &Tag) -> (res: Result<Text, ParseFeedError>)
    ensures
        handled(
            res,
            text_construct(element(tag@, old(source).pending())),
            old(source).pending(),
            final(source).pending(),
        ),
{
    match source.text() {
        Ok(value) => Ok(Text { content_type: text_type(tag), value }),
        Err(error) => Err(ParseFeedError::XmlReader(error)),
    }
}

/// The link that the attributes of a `link` element describe: none without
/// an address.
pub open spec fn link_of_tag(tag: TagView) -> Option<LinkView> {
    match attr_of(tag.attributes, "href"@) {
        Some(href) => Some(
            LinkView {
                href,
                rel: attr_of(tag.attributes, "rel"@),
                media_type: attr_of(tag.attributes, "type"@),
                href_lang: attr_of(tag.attributes, "hreflang"@),
                title: attr_of(tag.attributes, "title"@),
                length: match attr_of(tag.attributes, "length"@) {
                    Some(length) => decimal(length),
                    None => None,
                },
            },
        ),
        None => None,
    }
}

/// A `link` element.
pub open spec fn link_of(node: Node) -> Result<Option<LinkView>, Failure> {
    if node.intact() {
        Ok(link_of_tag(node.tag))
    } else {
        Err(Failure::Xml(node.fault->0))
    }
}

/// Reads the attributes of a `link` element.
pub fn link_from(tag: &Tag) -> (link: Option<Link>)
    ensures
        optional_view(link) == link_of_tag(tag@),
{
    match attr_text(tag, "href") {
        Some(href) => Some(
            Link {
                href,
                rel: attr_text(tag, "rel"),
                media_type: attr_text(tag, "type"),
                href_lang: attr_text(tag, "hreflang"),
                title: attr_text(tag, "title"),
                length: match attr_value(&tag.attributes, "length") {
                    Some(length) => parse_decimal(length),
                    None => None,
                },
            },
        ),
        None => None,
    }
}

/// The category that the attributes of a `category` element describe: none
/// without a term.
pub open spec fn category_of_tag(tag: TagView) -> Option<CategoryView> {
    match attr_of(tag.attributes, "term"@) {
        Some(term) => Some(
            CategoryView {
                term,
                scheme: attr_of(tag.attributes, "scheme"@),
                label: attr_of(tag.attributes, "label"@),
            },
        ),
        None => None,
    }
}

/// A `category` element.
pub open spec fn category_of(node: Node) -> Result<Option<CategoryView>, Failure> {
    if node.intact() {
        Ok(category_of_tag(node.tag))
    } else {
        Err(Failure::Xml(node.fault->0))
    }
}

/// Reads the attributes of a `category` element.
pub fn category_from(tag: &Tag) -> (category: Option<Category>)
    ensures
        optional_view(category) == category_of_tag(tag@),
{
    match attr_text(tag, "term") {
        Some(term) => Some(
            Category { term, scheme: attr_text(tag, "scheme"), label: attr_text(tag, "label") },
        ),
        None => None,
    }
}

/// A `generator` element.
pub open spec fn generator_of(node: Node) -> Result<GeneratorView, Failure> {
    if node.intact() {
        Ok(
            GeneratorView {
                content: node.text,
                uri: attr_of(node.tag.attributes, "uri"@),
                version: attr_of(node.tag.attributes, "version"@),
            },
        )
    } else {
        Err(Failure::Xml(node.fault->0))
    }
}

/// Reads a `generator` element.
pub fn parse_generator(source: &mut ElementSource, tag: &Tag) -> (res: Result<
    Generator,
    ParseFeedError,
>)
    ensures
        handled(
            res,
            generator_of(element(tag@, old(source).pending())),
            old(source).pending(),
            final(source).pending(),
        ),
{
    match source.text() {
        Ok(content) => Ok(
            Generator { content, uri: attr_text(tag, "uri"), version: attr_text(tag, "version") },
        ),
        Err(error) => Err(ParseFeedError::XmlReader(error)),
    }
}

/// What one child of an `author` or a `contributor` adds to the person.
pub open spec fn person_step(person: PersonView, node: Node) -> Result<PersonView, Failure> {
    let name = node.tag.name;
    if !in_namespace(node.tag, namespace()) {
        ignored(person, node)
    } else if name == "name"@ {
        match text_field(node) {
            Ok(Some(text)) => Ok(PersonView { name: text, ..person }),
            Ok(None) => Ok(person),
            Err(failure) => Err(failure),
        }
    } else if name == "uri"@ {
        match text_field(node) {
            Ok(text) => Ok(PersonView { uri: text, ..person }),
            Err(failure) => Err(failure),
        }
    } else if name == "email"@ {
        match text_field(node) {
            Ok(text) => Ok(PersonView { email: text, ..person }),
            Err(failure) => Err(failure),
        }
    } else {
        ignored(person, node)
    }
}

/// `person_step` as a value, for `fold`.
pub open spec fn person_stepper() -> spec_fn(PersonView, Node) -> Result<PersonView, Failure> {
    |person: PersonView, node: Node| person_step(person, node)
}

/// An `author` or a `contributor`.
pub open spec fn person_of(node: Node) -> Result<PersonView, Failure> {
    fold(node.children, node.fault, PersonView::named(Seq::empty()), person_stepper())
}

/// Reads an `author` or a `contributor`.
pub fn parse_person(source: &mut ElementSource, tag: &Tag) -> (res: Result<Person, ParseFeedError>)
    ensures
        handled(
            res,
            person_of(element(tag@, old(source).pending())),
            old(source).pending(),
            final(source).pending(),
        ),
{
    let ghost start = source.pending();
    let ghost goal = person_of(element(tag@, start));
    let mut person = Person::named(String::new());
    loop
        invariant
            start == old(source).pending(),
            goal == person_of(element(tag@, start)),
            remainder(source.pending(), 0) == remainder(start, 0),
            source.pending().len() <= start.len(),
            fold(
                children_of(source.pending()),
                fault_in(source.pending()),
                person@,
                person_stepper(),
            ) == goal,
        decreases source.pending().len(),
    {
        let ghost before = source.pending();
        let child = match source.next_child() {
            Ok(Some(child)) => child,
            Ok(None) => {
                return Ok(person);
            },
            Err(error) => {
                return Err(ParseFeedError::XmlReader(error));
            },
        };
        proof {
            lemma_fold_child(before, child@, source.pending(), person@, person_stepper());
        }
        if !is_atom(&child) {
            ignore(source)?;
        } else if same_text(child.name.as_str(), "name") {
            match read_text(source)? {
                Some(text) => {
                    person.name = text;
                },
                None => {},
            }
        } else if same_text(child.name.as_str(), "uri") {
            person.uri = read_text(source)?;
        } else if same_text(child.name.as_str(), "email") {
            person.email = read_text(source)?;
        } else {
            ignore(source)?;
        }
    }
}

/// The media type that the `type` attribute of a `content` element names.
pub open spec fn content_mime(kind: Option<Seq<char>>) -> Result<Seq<char>, Failure> {
    match kind {
        None => Ok("text/plain"@),
        Some(kind) => if kind == "text"@ {
            Ok("text/plain"@)
        } else if kind == "html"@ {
            Ok("text/html"@)
        } else if kind == "xhtml"@ {
            Ok("application/xhtml+xml"@)
        } else if is_media_type(kind) {
            Ok(kind)
        } else {
            Err(Failure::Parse(KindView::UnknownMimeType(kind)))
        },
    }
}

/// A `content` element: a body in the document, or a link to one elsewhere.
pub open spec fn content_of(node: Node) -> Result<ContentView, Failure> {
    if !node.intact() {
        Err(Failure::Xml(node.fault->0))
    } else {
        match content_mime(attr_of(node.tag.attributes, "type"@)) {
            Err(failure) => Err(failure),
            Ok(mime) => match attr_of(node.tag.attributes, "src"@) {
                Some(src) => Ok(
                    ContentView {
                        body: None,
                        content_type: mime,
                        length: None,
                        src: Some(LinkView::to(src)),
                    },
                ),
                None => if node.text.len() == 0 {
                    Err(Failure::Parse(KindView::MissingContent("content"@)))
                } else {
                    Ok(
                        ContentView {
                            body: Some(node.text),
                            content_type: mime,
                            length: None,
                            src: None,
                        },
                    )
                },
            },
        }
    }
}

fn mime_from(tag: &Tag) -> (res: Result<MimeType, ParseFeedError>)
    ensures
        match res {
            Ok(mime) => content_mime(attr_of(tag@.attributes, "type"@)) == Ok::<
                Seq<char>,
                Failure,
            >(mime@),
            Err(error) => content_mime(attr_of(tag@.attributes, "type"@)) == Err::<
                Seq<char>,
                Failure,
            >(error@),
        },
{
    match attr_value(&tag.attributes, "type") {
        None => Ok(MimeType::text_plain()),
        Some(kind) => {
            if same_text(kind, "text") {
                Ok(MimeType::text_plain())
            } else if same_text(kind, "html") {
                Ok(MimeType::text_html())
            } else if same_text(kind, "xhtml") {
                Ok(MimeType::xhtml())
            } else {
                match MimeType::parse(kind) {
                    Some(mime) => Ok(mime),
                    None => Err(
                        ParseFeedError::ParseError(
                            ParseErrorKind::UnknownMimeType(String::from_str(kind)),
                        ),
                    ),
                }
            }
        },
    }
}

/// Reads a `content` element.
pub fn parse_content(source: &mut ElementSource, tag: &Tag) -> (res: Result<
    Content,
    ParseFeedError,
>)
    ensures
        handled(
            res,
            content_of(element(tag@, old(source).pending())),
            old(source).pending(),
            final(source).pending(),
        ),
{
    let text = match source.text() {
        Ok(text) => text,
        Err(error) => {
            return Err(ParseFeedError::XmlReader(error));
        },
    };
    let mime = mime_from(tag)?;
    match attr_text(tag, "src") {
        Some(src) => Ok(
            Content { body: None, content_type: mime, length: None, src: Some(Link::to(src)) },
        ),
        None => {
            if text.as_str().is_empty() {
                Err(ParseFeedError::ParseError(ParseErrorKind::MissingContent("content")))
            } else {
                Ok(Content { body: Some(text), content_type: mime, length: None, src: None })
            }
        },
    }
}

/// What one child of an `entry` adds to the entry.
pub open spec fn entry_step(entry: EntryView, node: Node) -> Result<EntryView, Failure> {
    let name = node.tag.name;
    if !in_namespace(node.tag, namespace()) {
        ignored(entry, node)
    } else if name == "id"@ {
        match required_text(node, "id"@) {
            Ok(id) => Ok(EntryView { id, ..entry }),
            Err(failure) => Err(failure),
        }
    } else if name == "title"@ {
        match text_construct(node) {
            Ok(text) => Ok(EntryView { title: Some(text), ..entry }),
            Err(failure) => Err(failure),
        }
    } else if name == "updated"@ {
        match text_field(node) {
            Ok(Some(text)) => Ok(EntryView { updated: iso_date(text), ..entry }),
            Ok(None) => Ok(entry),
            Err(failure) => Err(failure),
        }
    } else if name == "published"@ {
        match text_field(node) {
            Ok(Some(text)) => Ok(EntryView { published: iso_date(text), ..entry }),
            Ok(None) => Ok(entry),
            Err(failure) => Err(failure),
        }
    } else if name == "author"@ {
        match person_of(node) {
            Ok(person) => Ok(EntryView { authors: entry.authors.push(person), ..entry }),
            Err(failure) => Err(failure),
        }
    } else if name == "content"@ {
        match content_of(node) {
            Ok(content) => Ok(EntryView { content: Some(content), ..entry }),
            Err(failure) => Err(failure),
        }
    } else if name == "link"@ {
        match link_of(node) {
            Ok(Some(link)) => Ok(EntryView { links: entry.links.push(link), ..entry }),
            Ok(None) => Ok(entry),
            Err(failure) => Err(failure),
        }
    } else if name == "summary"@ {
        match text_construct(node) {
            Ok(text) => Ok(EntryView { summary: Some(text), ..entry }),
            Err(failure) => Err(failure),
        }
    } else if name == "category"@ {
        match category_of(node) {
            Ok(Some(category)) => Ok(
                EntryView { categories: entry.categories.push(category), ..entry },
            ),
            Ok(None) => Ok(entry),
            Err(failure) => Err(failure),
        }
    } else if name == "rights"@ {
        match text_construct(node) {
            Ok(text) => Ok(EntryView { rights: Some(text), ..entry }),
            Err(failure) => Err(failure),
        }
    } else {
        ignored(entry, node)
    }
}

/// `entry_step` as a value, for `fold`.
pub open spec fn entry_stepper() -> spec_fn(EntryView, Node) -> Result<EntryView, Failure> {
    |entry: EntryView, node: Node| entry_step(entry, node)
}

/// An `entry`: what its children add up to, with an identifier made up where
/// it brings none.
pub open spec fn entry_of(node: Node) -> Result<EntryView, Failure> {
    match fold(node.children, node.fault, EntryView::empty(), entry_stepper()) {
        Ok(entry) => Ok(identified_entry(entry)),
        Err(failure) => Err(failure),
    }
}

/// Reads an `entry`.
pub fn parse_entry(source: &mut ElementSource, tag: &Tag) -> (res: Result<Entry, ParseFeedError>)
    ensures
        handled(
            res,
            entry_of(element(tag@, old(source).pending())),
            old(source).pending(),
            final(source).pending(),
        ),
{
    let ghost start = source.pending();
    let ghost goal = fold(
        children_of(start),
        fault_in(start),
        EntryView::empty(),
        entry_stepper(),
    );
    let mut entry = Entry::empty();
    loop
        invariant
            start == old(source).pending(),
            remainder(source.pending(), 0) == remainder(start, 0),
            source.pending().len() <= start.len(),
            fold(
                children_of(source.pending()),
                fault_in(source.pending()),
                entry@,
                entry_stepper(),
            ) == goal,
            goal == fold(
                children_of(start),
                fault_in(start),
                EntryView::empty(),
                entry_stepper(),
            ),
        decreases source.pending().len(),
    {
        let ghost before = source.pending();
        let child = match source.next_child() {
            Ok(Some(child)) => child,
            Ok(None) => {
                return Ok(identify_entry(entry));
            },
            Err(error) => {
                return Err(ParseFeedError::XmlReader(error));
            },
        };
        proof {
            lemma_fold_child(before, child@, source.pending(), entry@, entry_stepper());
        }
        let name = child.name.as_str();
        if !is_atom(&child) {
            ignore(source)?;
        } else if same_text(name, "id") {
            entry.id = read_required_text(source, "id")?;
        } else if same_text(name, "title") {
            entry.title = Some(parse_text(source, &child)?);
        } else if same_text(name, "updated") {
            match read_text(source)? {
                Some(text) => {
                    entry.updated = parse_iso_date(text.as_str());
                },
                None => {},
            }
        } else if same_text(name, "published") {
            match read_text(source)? {
                Some(text) => {
                    entry.published = parse_iso_date(text.as_str());
                },
                None => {},
            }
        } else if same_text(name, "author") {
            let person = parse_person(source, &child)?;
            proof {
                lemma_views_push(entry.authors@, person);
            }
            entry.authors.push(person);
        } else if same_text(name, "content") {
            entry.content = Some(parse_content(source, &child)?);
        } else if same_text(name, "link") {
            ignore(source)?;
            match link_from(&child) {
                Some(link) => {
                    proof {
                        lemma_views_push(entry.links@, link);
                    }
                    entry.links.push(link);
                },
                None => {},
            }
        } else if same_text(name, "summary") {
            entry.summary = Some(parse_text(source, &child)?);
        } else if same_text(name, "category") {
            ignore(source)?;
            match category_from(&child) {
                Some(category) => {
                    proof {
                        lemma_views_push(entry.categories@, category);
                    }
                    entry.categories.push(category);
                },
                None => {},
            }
        } else if same_text(name, "rights") {
            entry.rights = Some(parse_text(source, &child)?);
        } else {
            ignore(source)?;
        }
    }
}

/// What one child of the root adds to the feed. The date of the feed has to
/// be readable where it is written; every other date that cannot be read is
/// left out.
pub open spec fn feed_step(feed: FeedView, node: Node) -> Result<FeedView, Failure> {
    let name = node.tag.name;
    if !in_namespace(node.tag, namespace()) {
        ignored(feed, node)
    } else if name == "id"@ {
        match required_text(node, "id"@) {
            Ok(id) => Ok(FeedView { id, ..feed }),
            Err(failure) => Err(failure),
        }
    } else if name == "title"@ {
        match text_construct(node) {
            Ok(title) => Ok(FeedView { title, ..feed }),
            Err(failure) => Err(failure),
        }
    } else if name == "updated"@ {
        match text_field(node) {
            Ok(Some(text)) => match iso_date(text) {
                Some(time) => Ok(FeedView { updated: Some(time), ..feed }),
                None => Err(Failure::Parse(KindView::InvalidDateTime(text))),
            },
            Ok(None) => Ok(feed),
            Err(failure) => Err(failure),
        }
    } else if name == "author"@ {
        match person_of(node) {
            Ok(person) => Ok(FeedView { authors: feed.authors.push(person), ..feed }),
            Err(failure) => Err(failure),
        }
    } else if name == "contributor"@ {
        match person_of(node) {
            Ok(person) => Ok(FeedView { contributors: feed.contributors.push(person), ..feed }),
            Err(failure) => Err(failure),
        }
    } else if name == "link"@ {
        match link_of(node) {
            Ok(Some(link)) => Ok(FeedView { links: feed.links.push(link), ..feed }),
            Ok(None) => Ok(feed),
            Err(failure) => Err(failure),
        }
    } else if name == "category"@ {
        match category_of(node) {
            Ok(Some(category)) => Ok(
                FeedView { categories: feed.categories.push(category), ..feed },
            ),
            Ok(None) => Ok(feed),
            Err(failure) => Err(failure),
        }
    } else if name == "generator"@ {
        match generator_of(node) {
            Ok(generator) => Ok(FeedView { generator: Some(generator), ..feed }),
            Err(failure) => Err(failure),
        }
    } else if name == "icon"@ {
        match text_field(node) {
            Ok(Some(uri)) => Ok(FeedView { icon: Some(ImageView::at(uri)), ..feed }),
            Ok(None) => Ok(feed),
            Err(failure) => Err(failure),
        }
    } else if name == "logo"@ {
        match text_field(node) {
            Ok(Some(uri)) => Ok(FeedView { logo: Some(ImageView::at(uri)), ..feed }),
            Ok(None) => Ok(feed),
            Err(failure) => Err(failure),
        }
    } else if name == "rights"@ {
        match text_construct(node) {
            Ok(text) => Ok(FeedView { rights: Some(text), ..feed }),
            Err(failure) => Err(failure),
        }
    } else if name == "subtitle"@ {
        match text_construct(node) {
            Ok(text) => Ok(FeedView { description: Some(text), ..feed }),
            Err(failure) => Err(failure),
        }
    } else if name == "entry"@ {
        match entry_of(node) {
            Ok(entry) => Ok(FeedView { entries: feed.entries.push(entry), ..feed }),
            Err(failure) => Err(failure),
        }
    } else {
        ignored(feed, node)
    }
}

/// `feed_step` as a value, for `fold`.
pub open spec fn feed_stepper() -> spec_fn(FeedView, Node) -> Result<FeedView, Failure> {
    |feed: FeedView, node: Node| feed_step(feed, node)
}

/// The feed that an Atom document with the given root holds.
pub open spec fn feed_of(root: Node) -> Result<FeedView, Failure> {
    match fold(root.children, root.fault, FeedView::empty(), feed_stepper()) {
        Ok(feed) => Ok(identified_feed(feed)),
        Err(failure) => Err(failure),
    }
}

/// Reads an Atom document whose root has just been opened.
pub fn parse(source: &mut ElementSource, root: &Tag) -> (res: Result<Feed, ParseFeedError>)
    ensures
        handled(
            res,
            feed_of(element(root@, old(source).pending())),
            old(source).pending(),
            final(source).pending(),
        ),
{
    let ghost start = source.pending();
    let ghost goal = fold(
        children_of(start),
        fault_in(start),
        FeedView::empty(),
        feed_stepper(),
    );
    let mut feed = Feed::empty();
    loop
        invariant
            start == old(source).pending(),
            remainder(source.pending(), 0) == remainder(start, 0),
            source.pending().len() <= start.len(),
            fold(
                children_of(source.pending()),
                fault_in(source.pending()),
                feed@,
                feed_stepper(),
            ) == goal,
            goal == fold(
                children_of(start),
                fault_in(start),
                FeedView::empty(),
                feed_stepper(),
            ),
        decreases source.pending().len(),
    {
        let ghost before = source.pending();
        let child = match source.next_child() {
            Ok(Some(child)) => child,
            Ok(None) => {
                return Ok(identify_feed(feed));
            },
            Err(error) => {
                return Err(ParseFeedError::XmlReader(error));
            },
        };
        proof {
            lemma_fold_child(before, child@, source.pending(), feed@, feed_stepper());
        }
        let name = child.name.as_str();
        if !is_atom(&child) {
            ignore(source)?;
        } else if same_text(name, "id") {
            feed.id = read_required_text(source, "id")?;
        } else if same_text(name, "title") {
            feed.title = parse_text(source, &child)?;
        } else if same_text(name, "updated") {
            match read_text(source)? {
                Some(text) => match parse_iso_date(text.as_str()) {
                    Some(time) => {
                        feed.updated = Some(time);
                    },
                    None => {
                        return Err(
                            ParseFeedError::ParseError(ParseErrorKind::InvalidDateTime(text)),
                        );
                    },
                },
                None => {},
            }
        } else if same_text(name, "author") {
            let person = parse_person(source, &child)?;
            proof {
                lemma_views_push(feed.authors@, person);
            }
            feed.authors.push(person);
        } else if same_text(name, "contributor") {
            let person = parse_person(source, &child)?;
            proof {
                lemma_views_push(feed.contributors@, person);
            }
            feed.contributors.push(person);
        } else if same_text(name, "link") {
            ignore(source)?;
            match link_from(&child) {
                Some(link) => {
                    proof {
                        lemma_views_push(feed.links@, link);
                    }
                    feed.links.push(link);
                },
                None => {},
            }
        } else if same_text(name, "category") {
            ignore(source)?;
            match category_from(&child) {
                Some(category) => {
                    proof {
                        lemma_views_push(feed.categories@, category);
                    }
                    feed.categories.push(category);
                },
                None => {},
            }
        } else if same_text(name, "generator") {
            feed.generator = Some(parse_generator(source, &child)?);
        } else if same_text(name, "icon") {
            match read_text(source)? {
                Some(uri) => {
                    feed.icon = Some(Image::at(uri));
                },
                None => {},
            }
        } else if same_text(name, "logo") {
            match read_text(source)? {
                Some(uri) => {
                    feed.logo = Some(Image::at(uri));
                },
                None => {},
            }
        } else if same_text(name, "rights") {
            feed.rights = Some(parse_text(source, &child)?);
        } else if same_text(name, "subtitle") {
            feed.description = Some(parse_text(source, &child)?);
        } else if same_text(name, "entry") {
            let entry = parse_entry(source, &child)?;
            proof {
                lemma_views_push(feed.entries@, entry);
            }
            feed.entries.push(entry);
        } else {
            ignore(source)?;
        }
    }
}

/// `entry_of` as a value, for `in_order`.
pub open spec fn entry_reader() -> spec_fn(Node) -> Result<EntryView, Failure> {
    |node: Node| entry_of(node)
}

proof fn lemma_entries_in_order(nodes: Seq<Node>, fault: Option<xml::reader::Error>, feed: FeedView)
    ensures
        fold(nodes, fault, feed, feed_stepper()) matches Ok(out) ==> in_order(
            out.entries,
            feed.entries,
            named_children(nodes, namespace(), "entry"@),
            entry_reader(),
        ),
    decreases nodes.len(),
{
    if nodes.len() > 0 {
        let first = nodes[0];
        let rest = named_children(nodes.skip(1), namespace(), "entry"@);
        reveal_strlit("entry");
        assert("entry"@.len() == 5);
        reveal_strlit("id");
        assert("id"@.len() == 2);
        reveal_strlit("title");
        assert("title"@.len() == 5);
        reveal_strlit("updated");
        assert("updated"@.len() == 7);
        reveal_strlit("author");
        assert("author"@.len() == 6);
        reveal_strlit("contributor");
        assert("contributor"@.len() == 11);
        reveal_strlit("link");
        assert("link"@.len() == 4);
        reveal_strlit("category");
        assert("category"@.len() == 8);
        reveal_strlit("generator");
        assert("generator"@.len() == 9);
        reveal_strlit("icon");
        assert("icon"@.len() == 4);
        reveal_strlit("logo");
        assert("logo"@.len() == 4);
        reveal_strlit("rights");
        assert("rights"@.len() == 6);
        reveal_strlit("subtitle");
        assert("subtitle"@.len() == 8);
        assert("entry"@[0] != "title"@[0]);
        match feed_step(feed, first) {
            Ok(next) => {
                lemma_entries_in_order(nodes.skip(1), fault, next);
                if fold(nodes, fault, feed, feed_stepper()) is Ok {
                    let out = fold(nodes, fault, feed, feed_stepper())->Ok_0;
                    if in_namespace(first.tag, namespace()) && first.tag.name == "entry"@ {
                        lemma_in_order_first(
                            out.entries,
                            feed.entries,
                            first,
                            rest,
                            entry_reader(),
                        );
                    } else {
                        assert(next.entries == feed.entries);
                    }
                }
            },
            Err(_) => {},
        }
    }
}

/// The entries of an Atom feed are its `entry` elements, one for one and in
/// the order of the document, and the feed and each of them has an
/// identifier.
pub proof fn law_entries_in_document_order(root: Node, feed: FeedView)
    requires
        feed_of(root) == Ok::<FeedView, Failure>(feed),
    ensures
        in_order(
            feed.entries,
            Seq::empty(),
            named_children(root.children, namespace(), "entry"@),
            entry_reader(),
        ),
        feed.id.len() > 0,
        forall|i: int| 0 <= i < feed.entries.len() ==> (#[trigger] feed.entries[i]).id.len() > 0,
{
    lemma_entries_in_order(root.children, root.fault, FeedView::empty());
    let gathered = fold(root.children, root.fault, FeedView::empty(), feed_stepper())->Ok_0;
    lemma_identified(EntryView::empty(), gathered);
    let nodes = named_children(root.children, namespace(), "entry"@);
    assert forall|i: int| 0 <= i < feed.entries.len() implies (#[trigger] feed.entries[i]).id.len()
        > 0 by {
        let node = nodes[i];
        assert(entry_reader()(node) == Ok::<EntryView, Failure>(feed.entries[i]));
        let raw = fold(node.children, node.fault, EntryView::empty(), entry_stepper())->Ok_0;
        lemma_identified(raw, FeedView::empty());
    }
}

/// A child that stands in a namespace of its own adds nothing to an Atom
/// feed, to an entry or to a person, and does not make the mapping fail.
pub proof fn law_foreign_children_are_passed_over(
    node: Node,
    feed: FeedView,
    entry: EntryView,
    person: PersonView,
)
    requires
        node.intact(),
        !in_namespace(node.tag, namespace()),
    ensures
        feed_step(feed, node) == Ok::<FeedView, Failure>(feed),
        entry_step(entry, node) == Ok::<EntryView, Failure>(entry),
        person_step(person, node) == Ok::<PersonView, Failure>(person),
{
}

/// A date of an entry that cannot be read does not make the mapping fail:
/// the entry goes on without that date.
pub proof fn law_unreadable_entry_date(entry: EntryView, node: Node)
    requires
        node.intact(),
        in_namespace(node.tag, namespace()),
        node.text.len() > 0,
        iso_date(node.text) is None,
    ensures
        node.tag.name == "updated"@ ==> entry_step(entry, node) == Ok::<EntryView, Failure>(
            EntryView { updated: None, ..entry },
        ),
        node.tag.name == "published"@ ==> entry_step(entry, node) == Ok::<EntryView, Failure>(
            EntryView { published: None, ..entry },
        ),
{
    reveal_strlit("id");
    reveal_strlit("title");
    reveal_strlit("updated");
    reveal_strlit("published");
    assert("id"@.len() == 2);
    assert("title"@.len() == 5);
    assert("updated"@.len() == 7);
    assert("published"@.len() == 9);
}

} // verus!
