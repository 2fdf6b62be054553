//! The mapping of RSS 1.0 onto the feed model. A document of this dialect is
//! a graph: the channel names its items and its picture, which stand beside
//! it under the root.
use vstd::prelude::*;
use crate::model::Category;
use crate::model::CategoryView;
use crate::model::Content;
use crate::model::Entry;
use crate::model::EntryView;
use crate::model::Feed;
use crate::model::FeedView;
use crate::model::Image;
use crate::model::ImageView;
use crate::model::Link;
use crate::model::LinkView;
use crate::model::MimeType;
use crate::model::Person;
use crate::model::PersonView;
use crate::model::Text;
use crate::model::TextView;
use crate::parser::Failure;
use crate::parser::KindView;
use crate::parser::ParseErrorKind;
use crate::parser::ParseFeedError;
use crate::parser::rss2::content_namespace;
use crate::parser::rss2::dublin_core;
use crate::parser::rss2::encoded_content;
use crate::parser::rss2::image_of;
use crate::parser::rss2::parse_image;
use crate::parser::walk::attr_text;
use crate::parser::walk::belongs_to;
use crate::parser::walk::extends;
use crate::parser::walk::fold;
use crate::parser::walk::handled;
use crate::parser::walk::identified_entry;
use crate::parser::walk::identified_feed;
use crate::parser::walk::identify_entry;
use crate::parser::walk::identify_feed;
use crate::parser::walk::ignore;
use crate::parser::walk::ignored;
use crate::parser::walk::in_extension;
use crate::parser::walk::in_namespace;
use crate::parser::walk::in_order;
use crate::parser::walk::lemma_fold_child;
use crate::parser::walk::lemma_identified;
use crate::parser::walk::lemma_in_order_first;
use crate::parser::walk::named_children;
use crate::parser::walk::read_text;
use crate::parser::walk::text_field;
use crate::util::attr_of;
use crate::util::document::children_of;
use crate::util::document::element;
use crate::util::document::Event;
use crate::util::document::fault_in;
use crate::util::document::lemma_views_push;
use crate::util::document::Node;
use crate::util::document::optional_view;
use crate::util::document::remainder;
use crate::util::document::TagView;
use crate::util::document::views;
use crate::util::element_source::ElementSource;
use crate::util::element_source::finished;
use crate::util::element_source::Tag;
use crate::util::text::same_text;
use crate::util::timestamp::iso_date;
use crate::util::timestamp::parse_iso_date;

verus! {

/// The namespace of RSS 1.0.
pub open spec fn namespace() -> Seq<char> {
    "http://purl.org/rss/1.0/"@
}

/// The namespace of RDF.
pub open spec fn rdf() -> Seq<char> {
    "http://www.w3.org/1999/02/22-rdf-syntax-ns#"@
}

/// The resource that an element is about or points to, where it names one.
pub open spec fn resource_of(tag: TagView, attribute: Seq<char>) -> Seq<char> {
    match attr_of(tag.attributes, attribute) {
        Some(uri) => uri,
        None => Seq::empty(),
    }
}

fn resource(tag: &Tag, attribute: &str) -> (uri: String)
    ensures
        uri@ == resource_of(tag@, attribute@),
{
    match attr_text(tag, attribute) {
        Some(uri) => uri,
        None => String::new(),
    }
}

/// What one child of an `rdf:Seq` adds to the list of items: the resource of
/// an `rdf:li`.
pub open spec fn li_step(listed: Seq<Seq<char>>, node: Node) -> Result<Seq<Seq<char>>, Failure> {
    if in_extension(node.tag, rdf()) && node.tag.name == "li"@ {
        if !node.intact() {
            Err(Failure::Xml(node.fault->0))
        } else {
            match attr_of(node.tag.attributes, "resource"@) {
                Some(uri) => Ok(listed.push(uri)),
                None => Ok(listed),
            }
        }
    } else {
        ignored(listed, node)
    }
}

/// `li_step` as a value, for `fold`.
pub open spec fn li_stepper() -> spec_fn(Seq<Seq<char>>, Node) -> Result<
    Seq<Seq<char>>,
    Failure,
> {
    |listed: Seq<Seq<char>>, node: Node| li_step(listed, node)
}

/// What one child of `items` adds to the list of items: what an `rdf:Seq`
/// lists.
pub open spec fn seq_step(listed: Seq<Seq<char>>, node: Node) -> Result<Seq<Seq<char>>, Failure> {
    if in_extension(node.tag, rdf()) && node.tag.name == "Seq"@ {
        fold(node.children, node.fault, listed, li_stepper())
    } else {
        ignored(listed, node)
    }
}

/// `seq_step` as a value, for `fold`.
pub open spec fn seq_stepper() -> spec_fn(Seq<Seq<char>>, Node) -> Result<
    Seq<Seq<char>>,
    Failure,
> {
    |listed: Seq<Seq<char>>, node: Node| seq_step(listed, node)
}

/// What an executable reader made of a list of resources, against the
/// model.
pub open spec fn listed_as(
    res: Result<Vec<String>, ParseFeedError>,
    expected: Result<Seq<Seq<char>>, Failure>,
    before: Seq<Event>,
    after: Seq<Event>,
) -> bool {
    match res {
        Ok(listed) => expected == Ok::<Seq<Seq<char>>, Failure>(views(listed@)) && finished(
            before,
            after,
        ),
        Err(error) => expected == Err::<Seq<Seq<char>>, Failure>(error@),
    }
}

fn parse_seq(source: &mut ElementSource, known: Vec<String>) -> (res: Result<
    Vec<String>,
    ParseFeedError,
>)
    ensures
        listed_as(
            res,
            fold(
                children_of(old(source).pending()),
                fault_in(old(source).pending()),
                views(known@),
                li_stepper(),
            ),
            old(source).pending(),
            final(source).pending(),
        ),
{
    let ghost start = source.pending();
    let ghost goal = fold(
        children_of(start),
        fault_in(start),
        views(known@),
        li_stepper(),
    );
    let mut listed = known;
    loop
        invariant
            start == old(source).pending(),
            remainder(source.pending(), 0) == remainder(start, 0),
            source.pending().len() <= start.len(),
            fold(
                children_of(source.pending()),
                fault_in(source.pending()),
                views(listed@),
                li_stepper(),
            ) == goal,
            goal == fold(
                children_of(start),
                fault_in(start),
                views(known@),
                li_stepper(),
            ),
        decreases source.pending().len(),
    {
        let ghost before = source.pending();
        let child = match source.next_child() {
            Ok(Some(child)) => child,
            Ok(None) => {
                return Ok(listed);
            },
            Err(error) => {
                return Err(ParseFeedError::XmlReader(error));
            },
        };
        proof {
            lemma_fold_child(before, child@, source.pending(), views(listed@), li_stepper());
        }
        ignore(source)?;
        if extends(&child, "http://www.w3.org/1999/02/22-rdf-syntax-ns#") && same_text(
            child.name.as_str(),
            "li",
        ) {
            match attr_text(&child, "resource") {
                Some(uri) => {
                    proof {
                        lemma_views_push(listed@, uri);
                    }
                    listed.push(uri);
                },
                None => {},
            }
        }
    }
}

fn parse_items(source: &mut ElementSource, known: Vec<String>) -> (res: Result<
    Vec<String>,
    ParseFeedError,
>)
    ensures
        listed_as(
            res,
            fold(
                children_of(old(source).pending()),
                fault_in(old(source).pending()),
                views(known@),
                seq_stepper(),
            ),
            old(source).pending(),
            final(source).pending(),
        ),
{
    let ghost start = source.pending();
    let ghost goal = fold(
        children_of(start),
        fault_in(start),
        views(known@),
        seq_stepper(),
    );
    let mut listed = known;
    loop
        invariant
            start == old(source).pending(),
            remainder(source.pending(), 0) == remainder(start, 0),
            source.pending().len() <= start.len(),
            fold(
                children_of(source.pending()),
                fault_in(source.pending()),
                views(listed@),
                seq_stepper(),
            ) == goal,
            goal == fold(
                children_of(start),
                fault_in(start),
                views(known@),
                seq_stepper(),
            ),
        decreases source.pending().len(),
    {
        let ghost before = source.pending();
        let child = match source.next_child() {
            Ok(Some(child)) => child,
            Ok(None) => {
                return Ok(listed);
            },
            Err(error) => {
                return Err(ParseFeedError::XmlReader(error));
            },
        };
        proof {
            lemma_fold_child(before, child@, source.pending(), views(listed@), seq_stepper());
        }
        if extends(&child, "http://www.w3.org/1999/02/22-rdf-syntax-ns#") && same_text(
            child.name.as_str(),
            "Seq",
        ) {
            listed = parse_seq(source, listed)?;
        } else {
            ignore(source)?;
        }
    }
}

/// What a `channel` says: the feed without its entries, the resources of the
/// items that it lists, and the resource of its picture.
pub struct Channel {
    pub feed: Feed,
    pub listed: Vec<String>,
    pub picture: Option<String>,
}

/// `Channel` over characters and sequences.
pub struct ChannelView {
    pub feed: FeedView,
    pub listed: Seq<Seq<char>>,
    pub picture: Option<Seq<char>>,
}

impl View for Channel {
    type V = ChannelView;

    open spec fn view(&self) -> ChannelView {
        ChannelView {
            feed: self.feed@,
            listed: views(self.listed@),
            picture: optional_view(self.picture),
        }
    }
}

/// What one child of the `channel` adds to it.
pub open spec fn channel_step(channel: ChannelView, node: Node) -> Result<ChannelView, Failure> {
    let name = node.tag.name;
    let feed = channel.feed;
    if in_extension(node.tag, dublin_core()) {
        if name == "date"@ {
            match text_field(node) {
                Ok(Some(text)) => Ok(
                    ChannelView { feed: FeedView { updated: iso_date(text), ..feed }, ..channel },
                ),
                Ok(None) => Ok(channel),
                Err(failure) => Err(failure),
            }
        } else if name == "creator"@ {
            match text_field(node) {
                Ok(Some(text)) => Ok(
                    ChannelView {
                        feed: FeedView {
                            authors: feed.authors.push(PersonView::named(text)),
                            ..feed
                        },
                        ..channel
                    },
                ),
                Ok(None) => Ok(channel),
                Err(failure) => Err(failure),
            }
        } else if name == "rights"@ {
            match text_field(node) {
                Ok(Some(text)) => Ok(
                    ChannelView {
                        feed: FeedView { rights: Some(TextView::plain(text)), ..feed },
                        ..channel
                    },
                ),
                Ok(None) => Ok(channel),
                Err(failure) => Err(failure),
            }
        } else if name == "language"@ {
            match text_field(node) {
                Ok(Some(text)) => Ok(
                    ChannelView { feed: FeedView { language: Some(text), ..feed }, ..channel },
                ),
                Ok(None) => Ok(channel),
                Err(failure) => Err(failure),
            }
        } else {
            ignored(channel, node)
        }
    } else if !in_namespace(node.tag, namespace()) {
        ignored(channel, node)
    } else if name == "title"@ {
        match text_field(node) {
            Ok(Some(text)) => Ok(
                ChannelView { feed: FeedView { title: TextView::plain(text), ..feed }, ..channel },
            ),
            Ok(None) => Ok(channel),
            Err(failure) => Err(failure),
        }
    } else if name == "link"@ {
        match text_field(node) {
            Ok(Some(href)) => Ok(
                ChannelView {
                    feed: FeedView { links: feed.links.push(LinkView::to(href)), ..feed },
                    ..channel
                },
            ),
            Ok(None) => Ok(channel),
            Err(failure) => Err(failure),
        }
    } else if name == "description"@ {
        match text_field(node) {
            Ok(Some(text)) => Ok(
                ChannelView {
                    feed: FeedView { description: Some(TextView::plain(text)), ..feed },
                    ..channel
                },
            ),
            Ok(None) => Ok(channel),
            Err(failure) => Err(failure),
        }
    } else if name == "items"@ {
        match fold(node.children, node.fault, channel.listed, seq_stepper()) {
            Ok(listed) => Ok(ChannelView { listed, ..channel }),
            Err(failure) => Err(failure),
        }
    } else if name == "image"@ {
        if !node.intact() {
            Err(Failure::Xml(node.fault->0))
        } else {
            Ok(ChannelView { picture: attr_of(node.tag.attributes, "resource"@), ..channel })
        }
    } else {
        ignored(channel, node)
    }
}

/// `channel_step` as a value, for `fold`.
pub open spec fn channel_stepper() -> spec_fn(ChannelView, Node) -> Result<ChannelView, Failure> {
    |channel: ChannelView, node: Node| channel_step(channel, node)
}

/// The channel before any of its children is read: the resource that it is
/// about is the identifier of the feed.
pub open spec fn channel_start(tag: TagView) -> ChannelView {
    ChannelView {
        feed: FeedView { id: resource_of(tag, "about"@), ..FeedView::empty() },
        listed: Seq::empty(),
        picture: None,
    }
}

/// A `channel`.
pub open spec fn channel_of(node: Node) -> Result<ChannelView, Failure> {
    fold(node.children, node.fault, channel_start(node.tag), channel_stepper())
}

/// Reads a `channel`.
pub fn parse_channel(source: &mut ElementSource, tag: &Tag) -> (res: Result<
    Channel,
    ParseFeedError,
>)
    ensures
        handled(
            res,
            channel_of(element(tag@, old(source).pending())),
            old(source).pending(),
            final(source).pending(),
        ),
{
    let ghost start = source.pending();
    let ghost goal = fold(
        children_of(start),
        fault_in(start),
        channel_start(tag@),
        channel_stepper(),
    );
    let mut feed = Feed::empty();
    feed.id = resource(tag, "about");
    let mut channel = Channel { feed, listed: Vec::new(), picture: None };
    assert(channel@.listed =~= Seq::empty());
    loop
        invariant
            start == old(source).pending(),
            remainder(source.pending(), 0) == remainder(start, 0),
            source.pending().len() <= start.len(),
            fold(
                children_of(source.pending()),
                fault_in(source.pending()),
                channel@,
                channel_stepper(),
            ) == goal,
            goal == fold(
                children_of(start),
                fault_in(start),
                channel_start(tag@),
                channel_stepper(),
            ),
        decreases source.pending().len(),
    {
        let ghost before = source.pending();
        let child = match source.next_child() {
            Ok(Some(child)) => child,
            Ok(None) => {
                return Ok(channel);
            },
            Err(error) => {
                return Err(ParseFeedError::XmlReader(error));
            },
        };
        proof {
            lemma_fold_child(before, child@, source.pending(), channel@, channel_stepper());
        }
        let name = child.name.as_str();
        if extends(&child, "http://purl.org/dc/elements/1.1/") {
            if same_text(name, "date") {
                match read_text(source)? {
                    Some(text) => {
                        channel.feed.updated = parse_iso_date(text.as_str());
                    },
                    None => {},
                }
            } else if same_text(name, "creator") {
                match read_text(source)? {
                    Some(text) => {
                        let person = Person::named(text);
                        proof {
                            lemma_views_push(channel.feed.authors@, person);
                        }
                        channel.feed.authors.push(person);
                    },
                    None => {},
                }
            } else if same_text(name, "rights") {
                match read_text(source)? {
                    Some(text) => {
                        channel.feed.rights = Some(Text::plain(text));
                    },
                    None => {},
                }
            } else if same_text(name, "language") {
                match read_text(source)? {
                    Some(text) => {
                        channel.feed.language = Some(text);
                    },
                    None => {},
                }
            } else {
                ignore(source)?;
            }
        } else if !belongs_to(&child, "http://purl.org/rss/1.0/") {
            ignore(source)?;
        } else if same_text(name, "title") {
            match read_text(source)? {
                Some(text) => {
                    channel.feed.title = Text::plain(text);
                },
                None => {},
            }
        } else if same_text(name, "link") {
            match read_text(source)? {
                Some(href) => {
                    let link = Link::to(href);
                    proof {
                        lemma_views_push(channel.feed.links@, link);
                    }
                    channel.feed.links.push(link);
                },
                None => {},
            }
        } else if same_text(name, "description") {
            match read_text(source)? {
                Some(text) => {
                    channel.feed.description = Some(Text::plain(text));
                },
                None => {},
            }
        } else if same_text(name, "items") {
            let mut listed: Vec<String> = Vec::new();
            std::mem::swap(&mut listed, &mut channel.listed);
            channel.listed = parse_items(source, listed)?;
        } else if same_text(name, "image") {
            ignore(source)?;
            channel.picture = attr_text(&child, "resource");
        } else {
            ignore(source)?;
        }
    }
}

/// The category with the given term.
pub open spec fn subject(term: Seq<char>) -> CategoryView {
    CategoryView { term, scheme: None, label: None }
}

/// What one child of an `item` adds to the entry.
pub open spec fn item_step(entry: EntryView, node: Node) -> Result<EntryView, Failure> {
    let name = node.tag.name;
    if in_extension(node.tag, content_namespace()) {
        if name == "encoded"@ {
            match text_field(node) {
                Ok(Some(body)) => Ok(EntryView { content: Some(encoded_content(body)), ..entry }),
                Ok(None) => Ok(entry),
                Err(failure) => Err(failure),
            }
        } else {
            ignored(entry, node)
        }
    } else if in_extension(node.tag, dublin_core()) {
        if name == "date"@ {
            match text_field(node) {
                Ok(Some(text)) => Ok(EntryView { published: iso_date(text), ..entry }),
                Ok(None) => Ok(entry),
                Err(failure) => Err(failure),
            }
        } else if name == "creator"@ {
            match text_field(node) {
                Ok(Some(text)) => Ok(
                    EntryView { authors: entry.authors.push(PersonView::named(text)), ..entry },
                ),
                Ok(None) => Ok(entry),
                Err(failure) => Err(failure),
            }
        } else if name == "subject"@ {
            match text_field(node) {
                Ok(Some(term)) => Ok(
                    EntryView { categories: entry.categories.push(subject(term)), ..entry },
                ),
                Ok(None) => Ok(entry),
                Err(failure) => Err(failure),
            }
        } else {
            ignored(entry, node)
        }
    } else if !in_namespace(node.tag, namespace()) {
        ignored(entry, node)
    } else if name == "title"@ {
        match text_field(node) {
            Ok(Some(text)) => Ok(EntryView { title: Some(TextView::plain(text)), ..entry }),
            Ok(None) => Ok(entry),
            Err(failure) => Err(failure),
        }
    } else if name == "link"@ {
        match text_field(node) {
            Ok(Some(href)) => Ok(EntryView { links: entry.links.push(LinkView::to(href)), ..entry }),
            Ok(None) => Ok(entry),
            Err(failure) => Err(failure),
        }
    } else if name == "description"@ {
        match text_field(node) {
            Ok(Some(text)) => Ok(EntryView { summary: Some(TextView::plain(text)), ..entry }),
            Ok(None) => Ok(entry),
            Err(failure) => Err(failure),
        }
    } else {
        ignored(entry, node)
    }
}

/// `item_step` as a value, for `fold`.
pub open spec fn item_stepper() -> spec_fn(EntryView, Node) -> Result<EntryView, Failure> {
    |entry: EntryView, node: Node| item_step(entry, node)
}

/// An `item`. The resource that it is about is its identifier; an item that
/// is about nothing gets one made up.
pub open spec fn item_of(node: Node) -> Result<EntryView, Failure> {
    match fold(
        node.children,
        node.fault,
        EntryView { id: resource_of(node.tag, "about"@), ..EntryView::empty() },
        item_stepper(),
    ) {
        Ok(entry) => Ok(identified_entry(entry)),
        Err(failure) => Err(failure),
    }
}

/// Reads an `item`.
pub fn parse_item(source: &mut ElementSource, tag: &Tag) -> (res: Result<Entry, ParseFeedError>)
    ensures
        handled(
            res,
            item_of(element(tag@, old(source).pending())),
            old(source).pending(),
            final(source).pending(),
        ),
{
    let ghost start = source.pending();
    let ghost goal = fold(
        children_of(start),
        fault_in(start),
        EntryView { id: resource_of(tag@, "about"@), ..EntryView::empty() },
        item_stepper(),
    );
    let mut entry = Entry::empty();
    entry.id = resource(tag, "about");
    loop
        invariant
            start == old(source).pending(),
            remainder(source.pending(), 0) == remainder(start, 0),
            source.pending().len() <= start.len(),
            fold(
                children_of(source.pending()),
                fault_in(source.pending()),
                entry@,
                item_stepper(),
            ) == goal,
            goal == fold(
                children_of(start),
                fault_in(start),
                EntryView { id: resource_of(tag@, "about"@), ..EntryView::empty() },
                item_stepper(),
            ),
        decreases source.pending().len(),
    {
        let ghost before = source.pending();
        let child = match source.next_child() {
            Ok(Some(child)) => child,
            Ok(None) => {
                return Ok(identify_entry(entry));
            },
            Err(error) => {
                return Err(ParseFeedError::XmlReader(error));
            },
        };
        proof {
            lemma_fold_child(before, child@, source.pending(), entry@, item_stepper());
        }
        let name = child.name.as_str();
        if extends(&child, "http://purl.org/rss/1.0/modules/content/") {
            if same_text(name, "encoded") {
                match read_text(source)? {
                    Some(body) => {
                        let content = Content {
                            body: Some(body),
                            content_type: MimeType::text_html(),
                            length: None,
                            src: None,
                        };
                        entry.content = Some(content);
                    },
                    None => {},
                }
            } else {
                ignore(source)?;
            }
        } else if extends(&child, "http://purl.org/dc/elements/1.1/") {
            if same_text(name, "date") {
                match read_text(source)? {
                    Some(text) => {
                        entry.published = parse_iso_date(text.as_str());
                    },
                    None => {},
                }
            } else if same_text(name, "creator") {
                match read_text(source)? {
                    Some(text) => {
                        let person = Person::named(text);
                        proof {
                            lemma_views_push(entry.authors@, person);
                        }
                        entry.authors.push(person);
                    },
                    None => {},
                }
            } else if same_text(name, "subject") {
                match read_text(source)? {
                    Some(term) => {
                        let category = Category { term, scheme: None, label: None };
                        proof {
                            lemma_views_push(entry.categories@, category);
                        }
                        entry.categories.push(category);
                    },
                    None => {},
                }
            } else {
                ignore(source)?;
            }
        } else if !belongs_to(&child, "http://purl.org/rss/1.0/") {
            ignore(source)?;
        } else if same_text(name, "title") {
            match read_text(source)? {
                Some(text) => {
                    entry.title = Some(Text::plain(text));
                },
                None => {},
            }
        } else if same_text(name, "link") {
            match read_text(source)? {
                Some(href) => {
                    let link = Link::to(href);
                    proof {
                        lemma_views_push(entry.links@, link);
                    }
                    entry.links.push(link);
                },
                None => {},
            }
        } else if same_text(name, "description") {
            match read_text(source)? {
                Some(text) => {
                    entry.summary = Some(Text::plain(text));
                },
                None => {},
            }
        } else {
            ignore(source)?;
        }
    }
}

/// What stands under the root: the first channel, the items in the order of
/// the document, and the last picture with the resource that it is about.
pub struct Graph {
    pub channel: Option<Channel>,
    pub items: Vec<Entry>,
    pub image: Option<Image>,
    pub image_about: String,
}

/// `Graph` over characters and sequences.
pub struct GraphView {
    pub channel: Option<ChannelView>,
    pub items: Seq<EntryView>,
    pub image: Option<ImageView>,
    pub image_about: Seq<char>,
}

impl View for Graph {
    type V = GraphView;

    open spec fn view(&self) -> GraphView {
        GraphView {
            channel: optional_view(self.channel),
            items: views(self.items@),
            image: optional_view(self.image),
            image_about: self.image_about@,
        }
    }
}

impl GraphView {
    /// The graph of a root without children.
    pub open spec fn empty() -> GraphView {
        GraphView { channel: None, items: Seq::empty(), image: None, image_about: Seq::empty() }
    }
}

/// What one child of the root adds to the graph.
pub open spec fn root_step(graph: GraphView, node: Node) -> Result<GraphView, Failure> {
    let name = node.tag.name;
    if !in_namespace(node.tag, namespace()) {
        ignored(graph, node)
    } else if name == "channel"@ && graph.channel is None {
        match channel_of(node) {
            Ok(channel) => Ok(GraphView { channel: Some(channel), ..graph }),
            Err(failure) => Err(failure),
        }
    } else if name == "item"@ {
        match item_of(node) {
            Ok(entry) => Ok(GraphView { items: graph.items.push(entry), ..graph }),
            Err(failure) => Err(failure),
        }
    } else if name == "image"@ {
        match image_of(namespace(), node) {
            Ok(image) => if image.uri.len() > 0 {
                Ok(
                    GraphView {
                        image: Some(image),
                        image_about: resource_of(node.tag, "about"@),
                        ..graph
                    },
                )
            } else {
                Ok(graph)
            },
            Err(failure) => Err(failure),
        }
    } else {
        ignored(graph, node)
    }
}

/// `root_step` as a value, for `fold`.
pub open spec fn root_stepper() -> spec_fn(GraphView, Node) -> Result<GraphView, Failure> {
    |graph: GraphView, node: Node| root_step(graph, node)
}

/// The entries among `items` whose identifier is one of `listed`, in the
/// order of `items`.
pub open spec fn select(items: Seq<EntryView>, listed: Seq<Seq<char>>) -> Seq<EntryView>
    decreases items.len(),
{
    if items.len() == 0 {
        Seq::empty()
    } else if listed.contains(items.last().id) {
        select(items.drop_last(), listed).push(items.last())
    } else {
        select(items.drop_last(), listed)
    }
}

/// The entries of the feed: the items that the channel lists, in the order
/// of the document; every item where the channel lists none.
pub open spec fn entries_of(items: Seq<EntryView>, listed: Seq<Seq<char>>) -> Seq<EntryView> {
    if listed.len() == 0 {
        items
    } else {
        select(items, listed)
    }
}

/// The picture of the feed: the one under the root, unless the channel
/// points to another resource.
pub open spec fn logo_of(
    image: Option<ImageView>,
    about: Seq<char>,
    picture: Option<Seq<char>>,
) -> Option<ImageView> {
    match picture {
        Some(uri) => if uri == about {
            image
        } else {
            None
        },
        None => image,
    }
}

/// The feed that a graph holds: the one of its channel, with the entries and
/// the picture that the channel refers to. A graph without a channel holds no
/// feed.
pub open spec fn resolved(graph: GraphView) -> Result<FeedView, Failure> {
    match graph.channel {
        Some(channel) => Ok(
            identified_feed(
                FeedView {
                    entries: entries_of(graph.items, channel.listed),
                    logo: logo_of(graph.image, graph.image_about, channel.picture),
                    ..channel.feed
                },
            ),
        ),
        None => Err(Failure::Parse(KindView::NoFeedRoot)),
    }
}

/// The feed that an RSS 1.0 document with the given root holds.
pub open spec fn feed_of(root: Node) -> Result<FeedView, Failure> {
    match fold(root.children, root.fault, GraphView::empty(), root_stepper()) {
        Ok(graph) => resolved(graph),
        Err(failure) => Err(failure),
    }
}

fn is_listed(listed: &Vec<String>, id: &str) -> (res: bool)
    ensures
        res == views(listed@).contains(id@),
{
    let mut i: usize = 0;
    while i < listed.len()
        invariant
            i <= listed.len(),
            forall|k: int| 0 <= k < i ==> views(listed@)[k] != id@,
        decreases listed.len() - i,
    {
        if same_text(listed[i].as_str(), id) {
            assert(views(listed@)[i as int] == id@);
            return true;
        }
        i = i + 1;
    }
    false
}

fn choose_entries(items: Vec<Entry>, listed: &Vec<String>) -> (entries: Vec<Entry>)
    ensures
        views(entries@) == entries_of(views(items@), views(listed@)),
{
    if listed.len() == 0 {
        return items;
    }
    let ghost all = views(items@);
    let mut entries: Vec<Entry> = Vec::new();
    assert(views(entries@) =~= Seq::<EntryView>::empty());
    assert(all.take(0) =~= Seq::<EntryView>::empty());
    for entry in it: items
        invariant
            all == views(it.seq()),
            views(entries@) == select(all.take(it.index() as int), views(listed@)),
    {
        proof {
            assert(all.take(it.index() + 1).drop_last() =~= all.take(it.index() as int));
            assert(all.take(it.index() + 1).last() == entry@);
            lemma_views_push(entries@, entry);
        }
        if is_listed(listed, entry.id.as_str()) {
            entries.push(entry);
        }
    }
    assert(all.take(all.len() as int) =~= all);
    entries
}

fn resolve(graph: Graph) -> (res: Result<Feed, ParseFeedError>)
    ensures
        match res {
            Ok(feed) => resolved(graph@) == Ok::<FeedView, Failure>(feed@),
            Err(error) => resolved(graph@) == Err::<FeedView, Failure>(error@),
        },
{
    let Graph { channel, items, image, image_about } = graph;
    let Channel { feed, listed, picture } = match channel {
        Some(channel) => channel,
        None => {
            return Err(ParseFeedError::ParseError(ParseErrorKind::NoFeedRoot));
        },
    };
    let mut feed = feed;
    feed.entries = choose_entries(items, &listed);
    feed.logo = match picture {
        Some(uri) => {
            if same_text(uri.as_str(), image_about.as_str()) {
                image
            } else {
                None
            }
        },
        None => image,
    };
    Ok(identify_feed(feed))
}

/// Reads an RSS 1.0 document whose root has just been opened.
pub fn parse(source: &mut ElementSource, root: &Tag) -> (res: Result<Feed, ParseFeedError>)
    ensures
        handled(
            res,
            feed_of(element(root@, old(source).pending())),
            old(source).pending(),
            final(source).pending(),
        ),
{
    let ghost start = source.pending();
    let ghost goal = fold(
        children_of(start),
        fault_in(start),
        GraphView::empty(),
        root_stepper(),
    );
    let mut graph = Graph {
        channel: None,
        items: Vec::new(),
        image: None,
        image_about: String::new(),
    };
    assert(graph@.items =~= Seq::empty());
    loop
        invariant
            start == old(source).pending(),
            remainder(source.pending(), 0) == remainder(start, 0),
            source.pending().len() <= start.len(),
            fold(
                children_of(source.pending()),
                fault_in(source.pending()),
                graph@,
                root_stepper(),
            ) == goal,
            goal == fold(
                children_of(start),
                fault_in(start),
                GraphView::empty(),
                root_stepper(),
            ),
        decreases source.pending().len(),
    {
        let ghost before = source.pending();
        let child = match source.next_child() {
            Ok(Some(child)) => child,
            Ok(None) => {
                return resolve(graph);
            },
            Err(error) => {
                return Err(ParseFeedError::XmlReader(error));
            },
        };
        proof {
            lemma_fold_child(before, child@, source.pending(), graph@, root_stepper());
        }
        let name = child.name.as_str();
        if !belongs_to(&child, "http://purl.org/rss/1.0/") {
            ignore(source)?;
        } else if same_text(name, "channel") && graph.channel.is_none() {
            graph.channel = Some(parse_channel(source, &child)?);
        } else if same_text(name, "item") {
            let entry = parse_item(source, &child)?;
            proof {
                lemma_views_push(graph.items@, entry);
            }
            graph.items.push(entry);
        } else if same_text(name, "image") {
            let image = parse_image(source, &child, "http://purl.org/rss/1.0/")?;
            if !image.uri.as_str().is_empty() {
                graph.image = Some(image);
                graph.image_about = resource(&child, "about");
            }
        } else {
            ignore(source)?;
        }
    }
}

/// `item_of` as a value, for `in_order`.
pub open spec fn item_reader() -> spec_fn(Node) -> Result<EntryView, Failure> {
    |node: Node| item_of(node)
}

/// What stands under the root of an RSS 1.0 document.
pub open spec fn graph_of(root: Node) -> Result<GraphView, Failure> {
    fold(root.children, root.fault, GraphView::empty(), root_stepper())
}

proof fn lemma_items_in_order(nodes: Seq<Node>, fault: Option<xml::reader::Error>, graph: GraphView)
    ensures
        fold(nodes, fault, graph, root_stepper()) matches Ok(out) ==> in_order(
            out.items,
            graph.items,
            named_children(nodes, namespace(), "item"@),
            item_reader(),
        ),
    decreases nodes.len(),
{
    if nodes.len() > 0 {
        let first = nodes[0];
        let rest = named_children(nodes.skip(1), namespace(), "item"@);
        reveal_strlit("item");
        assert("item"@.len() == 4);
        reveal_strlit("channel");
        assert("channel"@.len() == 7);
        reveal_strlit("image");
        assert("image"@.len() == 5);
        match root_step(graph, first) {
            Ok(next) => {
                lemma_items_in_order(nodes.skip(1), fault, next);
                if fold(nodes, fault, graph, root_stepper()) is Ok {
                    let out = fold(nodes, fault, graph, root_stepper())->Ok_0;
                    if in_namespace(first.tag, namespace()) && first.tag.name == "item"@ {
                        lemma_in_order_first(out.items, graph.items, first, rest, item_reader());
                    } else {
                        assert(next.items == graph.items);
                    }
                }
            },
            Err(_) => {},
        }
    }
}

/// Choosing the listed entries keeps their order: what is chosen from two
/// sequences in a row is what is chosen from the first, then what is chosen
/// from the second.
pub proof fn law_select_keeps_order(
    first: Seq<EntryView>,
    second: Seq<EntryView>,
    listed: Seq<Seq<char>>,
)
    ensures
        select(first + second, listed) == select(first, listed) + select(second, listed),
    decreases second.len(),
{
    if second.len() == 0 {
        assert(first + second =~= first);
        assert(select(first, listed) + select(second, listed) =~= select(first, listed));
    } else {
        law_select_keeps_order(first, second.drop_last(), listed);
        assert((first + second).drop_last() =~= first + second.drop_last());
        assert((first + second).last() == second.last());
        assert(select(first + second, listed) =~= select(first, listed) + select(second, listed));
    }
}

/// Every entry that is chosen is one of the items.
pub proof fn law_select_chooses_items(items: Seq<EntryView>, listed: Seq<Seq<char>>, i: int)
    requires
        0 <= i < select(items, listed).len(),
    ensures
        items.contains(select(items, listed)[i]),
        listed.contains(select(items, listed)[i].id),
    decreases items.len(),
{
    if items.len() > 0 {
        let rest = select(items.drop_last(), listed);
        if i < rest.len() {
            law_select_chooses_items(items.drop_last(), listed, i);
            let found = rest[i];
            let at = choose|k: int| 0 <= k < items.drop_last().len() && items.drop_last()[k] == found;
            assert(items[at] == found);
        } else {
            assert(items[items.len() - 1] == items.last());
        }
    }
}

/// The items under the root of an RSS 1.0 document are read one for one and
/// in the order of the document. The entries of the feed are those of them
/// that the channel lists, or all of them where it lists none; the feed and
/// each of its entries has an identifier.
pub proof fn law_entries_in_document_order(root: Node, feed: FeedView)
    requires
        feed_of(root) == Ok::<FeedView, Failure>(feed),
    ensures
        graph_of(root) is Ok,
        graph_of(root)->Ok_0.channel is Some,
        ({
            let graph = graph_of(root)->Ok_0;
            &&& in_order(
                graph.items,
                Seq::empty(),
                named_children(root.children, namespace(), "item"@),
                item_reader(),
            )
            &&& feed.entries == entries_of(graph.items, graph.channel->0.listed)
        }),
        feed.id.len() > 0,
        forall|i: int| 0 <= i < feed.entries.len() ==> (#[trigger] feed.entries[i]).id.len() > 0,
{
    lemma_items_in_order(root.children, root.fault, GraphView::empty());
    let graph = graph_of(root)->Ok_0;
    let channel = graph.channel->0;
    let nodes = named_children(root.children, namespace(), "item"@);
    assert forall|k: int| 0 <= k < graph.items.len() implies (#[trigger] graph.items[k]).id.len()
        > 0 by {
        let node = nodes[k];
        assert(item_reader()(node) == Ok::<EntryView, Failure>(graph.items[k]));
        let raw = fold(
            node.children,
            node.fault,
            EntryView { id: resource_of(node.tag, "about"@), ..EntryView::empty() },
            item_stepper(),
        )->Ok_0;
        lemma_identified(raw, FeedView::empty());
    }
    assert forall|i: int| 0 <= i < feed.entries.len() implies (#[trigger] feed.entries[i]).id.len()
        > 0 by {
        if channel.listed.len() > 0 {
            law_select_chooses_items(graph.items, channel.listed, i);
            let at = choose|k: int| 0 <= k < graph.items.len() && graph.items[k] == feed.entries[i];
            assert(graph.items[at].id.len() > 0);
        }
    }
    lemma_identified(
        EntryView::empty(),
        FeedView {
            entries: entries_of(graph.items, channel.listed),
            logo: logo_of(graph.image, graph.image_about, channel.picture),
            ..channel.feed
        },
    );
}

} // verus!
