//! The mapping of RSS 0.91 and 0.92 onto the feed model.
use vstd::prelude::*;
use crate::model::Entry;
use crate::model::EntryView;
use crate::model::Feed;
use crate::model::FeedView;
use crate::model::Link;
use crate::model::LinkView;
use crate::model::Person;
use crate::model::PersonView;
use crate::model::Text;
use crate::model::TextView;
use crate::parser::Failure;
use crate::parser::KindView;
use crate::parser::ParseErrorKind;
use crate::parser::ParseFeedError;
use crate::parser::rss2::add_enclosure;
use crate::parser::rss2::category_of;
use crate::parser::rss2::image_of;
use crate::parser::rss2::parse_category;
use crate::parser::rss2::parse_image;
use crate::parser::rss2::with_enclosure;
use crate::parser::walk::attr_text;
use crate::parser::walk::belongs_to;
use crate::parser::walk::first_href;
use crate::parser::walk::fold;
use crate::parser::walk::handled;
use crate::parser::walk::identified_entry;
use crate::parser::walk::identified_feed;
use crate::parser::walk::identify_entry;
use crate::parser::walk::identify_feed;
use crate::parser::walk::ignore;
use crate::parser::walk::ignored;
use crate::parser::walk::in_namespace;
use crate::parser::walk::in_order;
use crate::parser::walk::lemma_first_href_push;
use crate::parser::walk::lemma_fold_child;
use crate::parser::walk::lemma_identified;
use crate::parser::walk::lemma_in_order_first;
use crate::parser::walk::named_children;
use crate::parser::walk::read_text;
use crate::parser::walk::text_field;
use crate::util::attr_of;
use crate::util::document::children_of;
use crate::util::document::element;
use crate::util::document::fault_in;
use crate::util::document::lemma_views_push;
use crate::util::document::Node;
use crate::util::document::optional_view;
use crate::util::document::remainder;
use crate::util::element_source::ElementSource;
use crate::util::element_source::Tag;
use crate::util::text::same_text;
use crate::util::timestamp::mail_date;
use crate::util::timestamp::parse_mail_date;

verus! {

/// The namespace of the elements of RSS 0.91 and 0.92: they stand in none.
pub open spec fn namespace() -> Seq<char> {
    ""@
}

/// What one child of an `item` adds to the entry. These flavours know no
/// `guid`, no date and no author of an item. The content of an entry is what
/// its first `enclosure` links to.
pub open spec fn item_step(entry: EntryView, node: Node) -> Result<EntryView, Failure> {
    let name = node.tag.name;
    if !in_namespace(node.tag, namespace()) {
        ignored(entry, node)
    } else if name == "title"@ {
        match text_field(node) {
            Ok(Some(text)) => Ok(EntryView { title: Some(TextView::html(text)), ..entry }),
            Ok(None) => Ok(entry),
            Err(failure) => Err(failure),
        }
    } else if name == "link"@ {
        match text_field(node) {
            Ok(Some(href)) => Ok(EntryView { links: entry.links.push(LinkView::to(href)), ..entry }),
            Ok(None) => Ok(entry),
            Err(failure) => Err(failure),
        }
    } else if name == "description"@ {
        match text_field(node) {
            Ok(Some(text)) => Ok(EntryView { summary: Some(TextView::html(text)), ..entry }),
            Ok(None) => Ok(entry),
            Err(failure) => Err(failure),
        }
    } else if name == "category"@ {
        match category_of(node) {
            Ok(Some(category)) => Ok(
                EntryView { categories: entry.categories.push(category), ..entry },
            ),
            Ok(None) => Ok(entry),
            Err(failure) => Err(failure),
        }
    } else if name == "enclosure"@ {
        if !node.intact() {
            Err(Failure::Xml(node.fault->0))
        } else {
            Ok(with_enclosure(entry, node.tag))
        }
    } else if name == "source"@ {
        if !node.intact() {
            Err(Failure::Xml(node.fault->0))
        } else {
            Ok(EntryView { source: attr_of(node.tag.attributes, "url"@), ..entry })
        }
    } else {
        ignored(entry, node)
    }
}

/// `item_step` as a value, for `fold`.
pub open spec fn item_stepper() -> spec_fn(EntryView, Node) -> Result<EntryView, Failure> {
    |entry: EntryView, node: Node| item_step(entry, node)
}

/// An `item`: what its children add up to. Its identifier is the text of
/// its first `link`, and without a link the digest of its title and
/// description; an `enclosure` is no such link.
pub open spec fn item_of(node: Node) -> Result<EntryView, Failure> {
    match fold(node.children, node.fault, EntryView::empty(), item_stepper()) {
        Ok(entry) => Ok(identified_entry(entry)),
        Err(failure) => Err(failure),
    }
}

/// Reads an `item`.
pub fn parse_item(source: &mut ElementSource, tag: &Tag) -> (res: Result<Entry, ParseFeedError>)
    ensures
        handled(
            res,
            item_of(element(tag@, old(source).pending())),
            old(source).pending(),
            final(source).pending(),
        ),
{
    let ghost start = source.pending();
    let ghost goal = fold(
        children_of(start),
        fault_in(start),
        EntryView::empty(),
        item_stepper(),
    );
    let mut entry = Entry::empty();
    loop
        invariant
            start == old(source).pending(),
            remainder(source.pending(), 0) == remainder(start, 0),
            source.pending().len() <= start.len(),
            fold(
                children_of(source.pending()),
                fault_in(source.pending()),
                entry@,
                item_stepper(),
            ) == goal,
            goal == fold(
                children_of(start),
                fault_in(start),
                EntryView::empty(),
                item_stepper(),
            ),
        decreases source.pending().len(),
    {
        let ghost before = source.pending();
        let child = match source.next_child() {
            Ok(Some(child)) => child,
            Ok(None) => {
                return Ok(identify_entry(entry));
            },
            Err(error) => {
                return Err(ParseFeedError::XmlReader(error));
            },
        };
        proof {
            lemma_fold_child(before, child@, source.pending(), entry@, item_stepper());
        }
        let name = child.name.as_str();
        if !belongs_to(&child, "") {
            ignore(source)?;
        } else if same_text(name, "title") {
            match read_text(source)? {
                Some(text) => {
                    entry.title = Some(Text::html(text));
                },
                None => {},
            }
        } else if same_text(name, "link") {
            match read_text(source)? {
                Some(href) => {
                    let link = Link::to(href);
                    proof {
                        lemma_views_push(entry.links@, link);
                    }
                    entry.links.push(link);
                },
                None => {},
            }
        } else if same_text(name, "description") {
            match read_text(source)? {
                Some(text) => {
                    entry.summary = Some(Text::html(text));
                },
                None => {},
            }
        } else if same_text(name, "category") {
            match parse_category(source, &child)? {
                Some(category) => {
                    proof {
                        lemma_views_push(entry.categories@, category);
                    }
                    entry.categories.push(category);
                },
                None => {},
            }
        } else if same_text(name, "enclosure") {
            ignore(source)?;
            add_enclosure(&mut entry, &child);
        } else if same_text(name, "source") {
            ignore(source)?;
            entry.source = attr_text(&child, "url");
        } else {
            ignore(source)?;
        }
    }
}

/// What one child of the `channel` adds to the feed. `lastBuildDate` is the
/// date of the feed, `pubDate` stands in where that is not known; a date
/// that cannot be read is left out.
pub open spec fn channel_step(feed: FeedView, node: Node) -> Result<FeedView, Failure> {
    let name = node.tag.name;
    if !in_namespace(node.tag, namespace()) {
        ignored(feed, node)
    } else if name == "title"@ {
        match text_field(node) {
            Ok(Some(text)) => Ok(FeedView { title: TextView::html(text), ..feed }),
            Ok(None) => Ok(feed),
            Err(failure) => Err(failure),
        }
    } else if name == "link"@ {
        match text_field(node) {
            Ok(Some(href)) => Ok(FeedView { links: feed.links.push(LinkView::to(href)), ..feed }),
            Ok(None) => Ok(feed),
            Err(failure) => Err(failure),
        }
    } else if name == "description"@ {
        match text_field(node) {
            Ok(Some(text)) => Ok(FeedView { description: Some(TextView::html(text)), ..feed }),
            Ok(None) => Ok(feed),
            Err(failure) => Err(failure),
        }
    } else if name == "language"@ {
        match text_field(node) {
            Ok(Some(text)) => Ok(FeedView { language: Some(text), ..feed }),
            Ok(None) => Ok(feed),
            Err(failure) => Err(failure),
        }
    } else if name == "copyright"@ {
        match text_field(node) {
            Ok(Some(text)) => Ok(FeedView { rights: Some(TextView::plain(text)), ..feed }),
            Ok(None) => Ok(feed),
            Err(failure) => Err(failure),
        }
    } else if name == "managingEditor"@ {
        match text_field(node) {
            Ok(Some(text)) => Ok(
                FeedView { authors: feed.authors.push(PersonView::named(text)), ..feed },
            ),
            Ok(None) => Ok(feed),
            Err(failure) => Err(failure),
        }
    } else if name == "webMaster"@ {
        match text_field(node) {
            Ok(Some(text)) => Ok(
                FeedView { contributors: feed.contributors.push(PersonView::named(text)), ..feed },
            ),
            Ok(None) => Ok(feed),
            Err(failure) => Err(failure),
        }
    } else if name == "lastBuildDate"@ {
        match text_field(node) {
            Ok(Some(text)) => match mail_date(text) {
                Some(time) => Ok(FeedView { updated: Some(time), ..feed }),
                None => Ok(feed),
            },
            Ok(None) => Ok(feed),
            Err(failure) => Err(failure),
        }
    } else if name == "pubDate"@ {
        match text_field(node) {
            Ok(Some(text)) => if feed.updated is None {
                Ok(FeedView { updated: mail_date(text), ..feed })
            } else {
                Ok(feed)
            },
            Ok(None) => Ok(feed),
            Err(failure) => Err(failure),
        }
    } else if name == "image"@ {
        match image_of(namespace(), node) {
            Ok(image) => if image.uri.len() > 0 {
                Ok(FeedView { logo: Some(image), ..feed })
            } else {
                Ok(feed)
            },
            Err(failure) => Err(failure),
        }
    } else if name == "item"@ {
        match item_of(node) {
            Ok(entry) => Ok(FeedView { entries: feed.entries.push(entry), ..feed }),
            Err(failure) => Err(failure),
        }
    } else {
        ignored(feed, node)
    }
}

/// `channel_step` as a value, for `fold`.
pub open spec fn channel_stepper() -> spec_fn(FeedView, Node) -> Result<FeedView, Failure> {
    |feed: FeedView, node: Node| channel_step(feed, node)
}

/// A `channel`: what its children add up to. Its identifier is its link,
/// and without a link the digest of its title and description.
pub open spec fn channel_of(node: Node) -> Result<FeedView, Failure> {
    match fold(node.children, node.fault, FeedView::empty(), channel_stepper()) {
        Ok(feed) => Ok(identified_feed(feed)),
        Err(failure) => Err(failure),
    }
}

/// Reads a `channel`.
pub fn parse_channel(source: &mut ElementSource, tag: &Tag) -> (res: Result<Feed, ParseFeedError>)
    ensures
        handled(
            res,
            channel_of(element(tag@, old(source).pending())),
            old(source).pending(),
            final(source).pending(),
        ),
{
    let ghost start = source.pending();
    let ghost goal = fold(
        children_of(start),
        fault_in(start),
        FeedView::empty(),
        channel_stepper(),
    );
    let mut feed = Feed::empty();
    loop
        invariant
            start == old(source).pending(),
            remainder(source.pending(), 0) == remainder(start, 0),
            source.pending().len() <= start.len(),
            fold(
                children_of(source.pending()),
                fault_in(source.pending()),
                feed@,
                channel_stepper(),
            ) == goal,
            goal == fold(
                children_of(start),
                fault_in(start),
                FeedView::empty(),
                channel_stepper(),
            ),
        decreases source.pending().len(),
    {
        let ghost before = source.pending();
        let child = match source.next_child() {
            Ok(Some(child)) => child,
            Ok(None) => {
                return Ok(identify_feed(feed));
            },
            Err(error) => {
                return Err(ParseFeedError::XmlReader(error));
            },
        };
        proof {
            lemma_fold_child(before, child@, source.pending(), feed@, channel_stepper());
        }
        let name = child.name.as_str();
        if !belongs_to(&child, "") {
            ignore(source)?;
        } else if same_text(name, "title") {
            match read_text(source)? {
                Some(text) => {
                    feed.title = Text::html(text);
                },
                None => {},
            }
        } else if same_text(name, "link") {
            match read_text(source)? {
                Some(href) => {
                    let link = Link::to(href);
                    proof {
                        lemma_views_push(feed.links@, link);
                    }
                    feed.links.push(link);
                },
                None => {},
            }
        } else if same_text(name, "description") {
            match read_text(source)? {
                Some(text) => {
                    feed.description = Some(Text::html(text));
                },
                None => {},
            }
        } else if same_text(name, "language") {
            match read_text(source)? {
                Some(text) => {
                    feed.language = Some(text);
                },
                None => {},
            }
        } else if same_text(name, "copyright") {
            match read_text(source)? {
                Some(text) => {
                    feed.rights = Some(Text::plain(text));
                },
                None => {},
            }
        } else if same_text(name, "managingEditor") {
            match read_text(source)? {
                Some(text) => {
                    let person = Person::named(text);
                    proof {
                        lemma_views_push(feed.authors@, person);
                    }
                    feed.authors.push(person);
                },
                None => {},
            }
        } else if same_text(name, "webMaster") {
            match read_text(source)? {
                Some(text) => {
                    let person = Person::named(text);
                    proof {
                        lemma_views_push(feed.contributors@, person);
                    }
                    feed.contributors.push(person);
                },
                None => {},
            }
        } else if same_text(name, "lastBuildDate") {
            match read_text(source)? {
                Some(text) => match parse_mail_date(text.as_str()) {
                    Some(time) => {
                        feed.updated = Some(time);
                    },
                    None => {},
                },
                None => {},
            }
        } else if same_text(name, "pubDate") {
            match read_text(source)? {
                Some(text) => {
                    if feed.updated.is_none() {
                        feed.updated = parse_mail_date(text.as_str());
                    }
                },
                None => {},
            }
        } else if same_text(name, "image") {
            let image = parse_image(source, &child, "")?;
            if !image.uri.as_str().is_empty() {
                feed.logo = Some(image);
            }
        } else if same_text(name, "item") {
            let entry = parse_item(source, &child)?;
            proof {
                lemma_views_push(feed.entries@, entry);
            }
            feed.entries.push(entry);
        } else {
            ignore(source)?;
        }
    }
}

/// What one child of the root adds: the first `channel` is the feed, and
/// nothing else counts.
pub open spec fn root_step(found: Option<FeedView>, node: Node) -> Result<
    Option<FeedView>,
    Failure,
> {
    if found is None && in_namespace(node.tag, namespace()) && node.tag.name == "channel"@ {
        match channel_of(node) {
            Ok(feed) => Ok(Some(feed)),
            Err(failure) => Err(failure),
        }
    } else {
        ignored(found, node)
    }
}

/// `root_step` as a value, for `fold`.
pub open spec fn root_stepper() -> spec_fn(Option<FeedView>, Node) -> Result<
    Option<FeedView>,
    Failure,
> {
    |found: Option<FeedView>, node: Node| root_step(found, node)
}

/// The feed that an RSS 0.91 or 0.92 document with the given root holds: its
/// first channel. A root without a channel is no feed.
pub open spec fn feed_of(root: Node) -> Result<FeedView, Failure> {
    match fold(root.children, root.fault, None, root_stepper()) {
        Ok(Some(feed)) => Ok(feed),
        Ok(None) => Err(Failure::Parse(KindView::NoFeedRoot)),
        Err(failure) => Err(failure),
    }
}

/// Reads an RSS 0.91 or 0.92 document whose root has just been opened.
pub fn parse(source: &mut ElementSource, root: &Tag) -> (res: Result<Feed, ParseFeedError>)
    ensures
        handled(
            res,
            feed_of(element(root@, old(source).pending())),
            old(source).pending(),
            final(source).pending(),
        ),
{
    let ghost start = source.pending();
    let ghost goal = fold(
        children_of(start),
        fault_in(start),
        None::<FeedView>,
        root_stepper(),
    );
    let mut found: Option<Feed> = None;
    loop
        invariant
            start == old(source).pending(),
            remainder(source.pending(), 0) == remainder(start, 0),
            source.pending().len() <= start.len(),
            fold(
                children_of(source.pending()),
                fault_in(source.pending()),
                optional_view(found),
                root_stepper(),
            ) == goal,
            goal == fold(
                children_of(start),
                fault_in(start),
                None::<FeedView>,
                root_stepper(),
            ),
        decreases source.pending().len(),
    {
        let ghost before = source.pending();
        let child = match source.next_child() {
            Ok(Some(child)) => child,
            Ok(None) => {
                return match found {
                    Some(feed) => Ok(feed),
                    None => Err(ParseFeedError::ParseError(ParseErrorKind::NoFeedRoot)),
                };
            },
            Err(error) => {
                return Err(ParseFeedError::XmlReader(error));
            },
        };
        proof {
            lemma_fold_child(
                before,
                child@,
                source.pending(),
                optional_view(found),
                root_stepper(),
            );
        }
        if found.is_none() && belongs_to(&child, "") && same_text(child.name.as_str(), "channel") {
            found = Some(parse_channel(source, &child)?);
        } else {
            ignore(source)?;
        }
    }
}

/// `item_of` as a value, for `in_order`.
pub open spec fn item_reader() -> spec_fn(Node) -> Result<EntryView, Failure> {
    |node: Node| item_of(node)
}

proof fn lemma_items_in_order(nodes: Seq<Node>, fault: Option<xml::reader::Error>, feed: FeedView)
    ensures
        fold(nodes, fault, feed, channel_stepper()) matches Ok(out) ==> in_order(
            out.entries,
            feed.entries,
            named_children(nodes, namespace(), "item"@),
            item_reader(),
        ),
    decreases nodes.len(),
{
    if nodes.len() > 0 {
        let first = nodes[0];
        let rest = named_children(nodes.skip(1), namespace(), "item"@);
        reveal_strlit("item");
        assert("item"@.len() == 4);
        reveal_strlit("title");
        assert("title"@.len() == 5);
        reveal_strlit("link");
        assert("link"@.len() == 4);
        reveal_strlit("description");
        assert("description"@.len() == 11);
        reveal_strlit("language");
        assert("language"@.len() == 8);
        reveal_strlit("copyright");
        assert("copyright"@.len() == 9);
        reveal_strlit("managingEditor");
        assert("managingEditor"@.len() == 14);
        reveal_strlit("webMaster");
        assert("webMaster"@.len() == 9);
        reveal_strlit("lastBuildDate");
        assert("lastBuildDate"@.len() == 13);
        reveal_strlit("pubDate");
        assert("pubDate"@.len() == 7);
        reveal_strlit("image");
        assert("image"@.len() == 5);
        assert("item"@[0] != "link"@[0]);
        match channel_step(feed, first) {
            Ok(next) => {
                lemma_items_in_order(nodes.skip(1), fault, next);
                if fold(nodes, fault, feed, channel_stepper()) is Ok {
                    let out = fold(nodes, fault, feed, channel_stepper())->Ok_0;
                    if in_namespace(first.tag, namespace()) && first.tag.name == "item"@ {
                        lemma_in_order_first(
                            out.entries,
                            feed.entries,
                            first,
                            rest,
                            item_reader(),
                        );
                    } else {
                        assert(next.entries == feed.entries);
                    }
                }
            },
            Err(_) => {},
        }
    }
}

proof fn lemma_first_channel(nodes: Seq<Node>, fault: Option<xml::reader::Error>, found: Option<FeedView>)
    ensures
        fold(nodes, fault, found, root_stepper()) matches Ok(out) ==> match found {
            Some(feed) => out == Some(feed),
            None => {
                let channels = named_children(nodes, namespace(), "channel"@);
                if channels.len() == 0 {
                    out is None
                } else {
                    out is Some && channel_of(channels[0]) == Ok::<FeedView, Failure>(out->0)
                }
            },
        },
    decreases nodes.len(),
{
    if nodes.len() > 0 {
        match root_step(found, nodes[0]) {
            Ok(next) => {
                lemma_first_channel(nodes.skip(1), fault, next);
            },
            Err(_) => {},
        }
    }
}

/// The feed of an RSS 0.91 or 0.92 document is what its first `channel` holds. Its entries
/// are the `item` elements of that channel, one for one and in the order of
/// the document, and the feed and each of them has an identifier.
pub proof fn law_entries_in_document_order(root: Node, feed: FeedView)
    requires
        feed_of(root) == Ok::<FeedView, Failure>(feed),
    ensures
        named_children(root.children, namespace(), "channel"@).len() > 0,
        ({
            let channel = named_children(root.children, namespace(), "channel"@)[0];
            &&& channel_of(channel) == Ok::<FeedView, Failure>(feed)
            &&& in_order(
                feed.entries,
                Seq::empty(),
                named_children(channel.children, namespace(), "item"@),
                item_reader(),
            )
        }),
        feed.id.len() > 0,
        forall|i: int| 0 <= i < feed.entries.len() ==> (#[trigger] feed.entries[i]).id.len() > 0,
{
    lemma_first_channel(root.children, root.fault, None);
    let channel = named_children(root.children, namespace(), "channel"@)[0];
    lemma_items_in_order(channel.children, channel.fault, FeedView::empty());
    let gathered = fold(channel.children, channel.fault, FeedView::empty(), channel_stepper())->Ok_0;
    lemma_identified(EntryView::empty(), gathered);
    let nodes = named_children(channel.children, namespace(), "item"@);
    assert forall|i: int| 0 <= i < feed.entries.len() implies (#[trigger] feed.entries[i]).id.len()
        > 0 by {
        let node = nodes[i];
        assert(item_reader()(node) == Ok::<EntryView, Failure>(feed.entries[i]));
        let raw = fold(node.children, node.fault, EntryView::empty(), item_stepper())->Ok_0;
        lemma_identified(raw, FeedView::empty());
    }
}

/// Whether a child is a `link` with text.
pub open spec fn is_link(node: Node) -> bool {
    in_namespace(node.tag, namespace()) && node.tag.name == "link"@ && node.text.len() > 0
}

/// The text of the first `link` among `nodes` that has any.
pub open spec fn first_link_text(nodes: Seq<Node>) -> Option<Seq<char>>
    decreases nodes.len(),
{
    if nodes.len() == 0 {
        None
    } else if is_link(nodes[0]) {
        Some(nodes[0].text)
    } else {
        first_link_text(nodes.skip(1))
    }
}

proof fn lemma_item_link(nodes: Seq<Node>, fault: Option<xml::reader::Error>, entry: EntryView)
    ensures
        fold(nodes, fault, entry, item_stepper()) matches Ok(out) ==> {
            &&& out.id == entry.id
            &&& first_href(out.links) == match first_href(entry.links) {
                Some(href) => Some(href),
                None => first_link_text(nodes),
            }
        },
    decreases nodes.len(),
{
    if nodes.len() > 0 {
        let first = nodes[0];
        reveal_strlit("title");
        assert("title"@.len() == 5);
        reveal_strlit("link");
        assert("link"@.len() == 4);
        reveal_strlit("description");
        assert("description"@.len() == 11);
        reveal_strlit("category");
        assert("category"@.len() == 8);
        reveal_strlit("enclosure");
        assert("enclosure"@.len() == 9);
        reveal_strlit("source");
        assert("source"@.len() == 6);

        match item_step(entry, first) {
            Ok(next) => {
                lemma_item_link(nodes.skip(1), fault, next);
                if next.links != entry.links {
                    let added = next.links.last();
                    assert(next.links =~= entry.links.push(added));
                    lemma_first_href_push(entry.links, added);
                }
            },
            Err(_) => {},
        }
    }
}

/// An item that has a `link` with text is identified by the text of
/// its first such `link`, whatever else it holds and wherever an `enclosure`
/// stands: items with the same link text get the same identifier.
pub proof fn law_item_is_identified_by_its_link(node: Node, entry: EntryView)
    requires
        item_of(node) == Ok::<EntryView, Failure>(entry),
        first_link_text(node.children) is Some,
    ensures
        Some(entry.id) == first_link_text(node.children),
{
    lemma_item_link(node.children, node.fault, EntryView::empty());
    assert(first_href(EntryView::empty().links) is None);
}

} // verus!
