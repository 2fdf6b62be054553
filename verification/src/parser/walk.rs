//! One pass over the children of an element, and the readers of the children
//! that every dialect has.
use vstd::prelude::*;
use crate::model::Entry;
use crate::model::EntryView;
use crate::model::Feed;
use crate::model::FeedView;
use crate::model::Link;
use crate::model::LinkView;
use crate::model::Text;
use crate::model::TextView;
use crate::parser::Failure;
use crate::parser::KindView;
use crate::parser::ParseErrorKind;
use crate::parser::ParseFeedError;
use crate::util::attr_of;
use crate::util::attr_value;
use crate::util::digest::digest;
use crate::util::digest::DIGEST_START;
use crate::util::digest::hex;
use crate::util::digest::lemma_hex_len;
use crate::util::digest::synthesize_id;
use crate::util::digest::synthetic_id;
use crate::util::document::children_of;
use crate::util::document::element;
use crate::util::document::Event;
use crate::util::document::fault_in;
use crate::util::document::Node;
use crate::util::document::optional_view;
use crate::util::document::remainder;
use crate::util::document::TagView;
use crate::util::document::views;
use crate::util::element_source::ElementSource;
use crate::util::element_source::failed;
use crate::util::element_source::finished;
use crate::util::element_source::starts_child;
use crate::util::element_source::Tag;
use crate::util::text::same_text;

verus! {

/// What one pass over `nodes` makes of `acc`: each node is handed to `step`
/// in turn, and the first failure ends the pass. A pass over the children of
/// an element that the tokenizer did not see the end of fails with `fault`,
/// the error of the tokenizer, at the latest behind the last child.
pub open spec fn fold<A>(
    nodes: Seq<Node>,
    fault: Option<xml::reader::Error>,
    acc: A,
    step: spec_fn(A, Node) -> Result<A, Failure>,
) -> Result<A, Failure>
    decreases nodes.len(),
{
    if nodes.len() == 0 {
        match fault {
            None => Ok(acc),
            Some(error) => Err(Failure::Xml(error)),
        }
    } else {
        match step(acc, nodes[0]) {
            Ok(next) => fold(nodes.skip(1), fault, next, step),
            Err(failure) => Err(failure),
        }
    }
}

/// What an executable reader of an element returned, against what the model
/// says of that element: the same value or the same failure, and after a
/// value the walk stands behind the element.
pub open spec fn handled<T: View>(
    res: Result<T, ParseFeedError>,
    expected: Result<T::V, Failure>,
    before: Seq<Event>,
    after: Seq<Event>,
) -> bool {
    match res {
        Ok(value) => expected == Ok::<T::V, Failure>(value@) && finished(before, after),
        Err(error) => expected == Err::<T::V, Failure>(error@),
    }
}

/// A child that the mapper has no use for.
pub open spec fn ignored<A>(acc: A, node: Node) -> Result<A, Failure> {
    match node.fault {
        None => Ok(acc),
        Some(error) => Err(Failure::Xml(error)),
    }
}

/// The text of an element, where it holds any.
pub open spec fn text_field(node: Node) -> Result<Option<Seq<char>>, Failure> {
    if node.fault is Some {
        Err(Failure::Xml(node.fault->0))
    } else if node.text.len() == 0 {
        Ok(None)
    } else {
        Ok(Some(node.text))
    }
}

/// The text of an element that has to hold some.
pub open spec fn required_text(node: Node, field: Seq<char>) -> Result<Seq<char>, Failure> {
    if node.fault is Some {
        Err(Failure::Xml(node.fault->0))
    } else if node.text.len() == 0 {
        Err(Failure::Parse(KindView::MissingContent(field)))
    } else {
        Ok(node.text)
    }
}

/// What a pass has left to do after a child was opened: the step for the
/// child, then the pass over its younger siblings.
pub proof fn lemma_fold_child<A>(
    before: Seq<Event>,
    tag: TagView,
    body: Seq<Event>,
    acc: A,
    step: spec_fn(A, Node) -> Result<A, Failure>,
)
    requires
        starts_child(before, tag, body),
    ensures
        fold(children_of(before), fault_in(before), acc, step) == match step(
            acc,
            element(tag, body),
        ) {
            Ok(next) => match remainder(body, 0) {
                Ok(rest) => fold(children_of(rest), fault_in(rest), next, step),
                Err(error) => Err(Failure::Xml(error)),
            },
            Err(failure) => Err(failure),
        },
{
    let first = element(tag, body);
    let nodes = children_of(before);
    assert(nodes.len() > 0 && nodes[0] == first);
    match step(acc, first) {
        Ok(next) => {
            match remainder(body, 0) {
                Ok(rest) => {
                    assert(nodes.skip(1) =~= children_of(rest));
                },
                Err(error) => {
                    assert(nodes.skip(1) =~= Seq::<Node>::empty());
                    assert(fold(nodes.skip(1), fault_in(before), next, step) == Err::<A, Failure>(
                        Failure::Xml(error),
                    ));
                },
            }
        },
        Err(_) => {},
    }
}

/// Reads the element that the walk stands in to its end and hands out nothing.
pub fn ignore(source: &mut ElementSource) -> (res: Result<(), ParseFeedError>)
    ensures
        match res {
            Ok(()) => finished(old(source).pending(), final(source).pending()),
            Err(error) => error matches ParseFeedError::XmlReader(fault) && failed(
                old(source).pending(),
                fault,
            ),
        },
{
    match source.skip() {
        Ok(()) => Ok(()),
        Err(error) => Err(ParseFeedError::XmlReader(error)),
    }
}

/// Reads the text of the element that the walk stands in.
pub fn read_text(source: &mut ElementSource) -> (res: Result<Option<String>, ParseFeedError>)
    ensures
        match res {
            Ok(text) => {
                &&& finished(old(source).pending(), final(source).pending())
                &&& forall|tag: TagView| #[trigger]
                    text_field(element(tag, old(source).pending())) == Ok::<
                        Option<Seq<char>>,
                        Failure,
                    >(optional_view(text))
            },
            Err(error) => error matches ParseFeedError::XmlReader(fault) && failed(
                old(source).pending(),
                fault,
            ),
        },
{
    match source.text() {
        Ok(text) => {
            if text.as_str().is_empty() {
                Ok(None)
            } else {
                Ok(Some(text))
            }
        },
        Err(error) => Err(ParseFeedError::XmlReader(error)),
    }
}

/// Reads the text of the element that the walk stands in, which has to hold
/// some: `field` names the element in the error.
pub fn read_required_text(source: &mut ElementSource, field: &'static str) -> (res: Result<
    String,
    ParseFeedError,
>)
    ensures
        match res {
            Ok(text) => {
                &&& finished(old(source).pending(), final(source).pending())
                &&& forall|tag: TagView| #[trigger]
                    required_text(element(tag, old(source).pending()), field@) == Ok::<
                        Seq<char>,
                        Failure,
                    >(text@)
            },
            Err(error) => forall|tag: TagView| #[trigger]
                required_text(element(tag, old(source).pending()), field@) == Err::<
                    Seq<char>,
                    Failure,
                >(error@),
        },
{
    match source.text() {
        Ok(text) => {
            if text.as_str().is_empty() {
                Err(ParseFeedError::ParseError(ParseErrorKind::MissingContent(field)))
            } else {
                Ok(text)
            }
        },
        Err(error) => Err(ParseFeedError::XmlReader(error)),
    }
}

/// Whether an element belongs to a dialect: it stands in no namespace, or in
/// the one of the dialect.
pub open spec fn in_namespace(tag: TagView, namespace: Seq<char>) -> bool {
    match tag.namespace {
        None => true,
        Some(own) => own == namespace,
    }
}

/// Whether an element stands in the namespace of an extension.
pub open spec fn in_extension(tag: TagView, namespace: Seq<char>) -> bool {
    tag.namespace == Some(namespace)
}

/// Tells whether an element belongs to the dialect with the given namespace.
pub fn belongs_to(tag: &Tag, namespace: &str) -> (res: bool)
    ensures
        res == in_namespace(tag@, namespace@),
{
    match &tag.namespace {
        None => true,
        Some(own) => same_text(own.as_str(), namespace),
    }
}

/// Tells whether an element stands in the namespace of an extension.
pub fn extends(tag: &Tag, namespace: &str) -> (res: bool)
    ensures
        res == in_extension(tag@, namespace@),
{
    match &tag.namespace {
        None => false,
        Some(own) => same_text(own.as_str(), namespace),
    }
}

/// The value of an attribute as a string of its own.
pub fn attr_text(tag: &Tag, name: &str) -> (value: Option<String>)
    ensures
        optional_view(value) == attr_of(tag@.attributes, name@),
{
    match attr_value(&tag.attributes, name) {
        Some(value) => Some(String::from_str(value)),
        None => None,
    }
}

/// Whether a link can name the feed or the entry that holds it: it has an
/// address, and it is no enclosure.
pub open spec fn names_its_holder(link: LinkView) -> bool {
    link.href.len() > 0 && link.rel != Some("enclosure"@)
}

/// The address of the first link that can name its holder.
pub open spec fn first_href(links: Seq<LinkView>) -> Option<Seq<char>>
    decreases links.len(),
{
    if links.len() == 0 {
        None
    } else if names_its_holder(links[0]) {
        Some(links[0].href)
    } else {
        first_href(links.skip(1))
    }
}

/// The value of a text, empty where there is none.
pub open spec fn value_of(text: Option<TextView>) -> Seq<char> {
    match text {
        Some(text) => text.value,
        None => Seq::empty(),
    }
}

/// An entry with an identifier: its own, or one made up from its first link
/// or from its title and its summary.
pub open spec fn identified_entry(entry: EntryView) -> EntryView {
    if entry.id.len() == 0 {
        EntryView {
            id: synthetic_id(
                first_href(entry.links),
                value_of(entry.title),
                value_of(entry.summary),
            ),
            ..entry
        }
    } else {
        entry
    }
}

/// A feed with an identifier: its own, or one made up from its first link or
/// from its title and its description.
pub open spec fn identified_feed(feed: FeedView) -> FeedView {
    if feed.id.len() == 0 {
        FeedView {
            id: synthetic_id(
                first_href(feed.links),
                feed.title.value,
                value_of(feed.description),
            ),
            ..feed
        }
    } else {
        feed
    }
}

/// Every entry and every feed leaves the mapper with an identifier.
pub proof fn lemma_identified(entry: EntryView, feed: FeedView)
    ensures
        identified_entry(entry).id.len() > 0,
        identified_feed(feed).id.len() > 0,
{
    lemma_first_href(entry.links);
    lemma_first_href(feed.links);
    lemma_hex_len(
        digest(digest(DIGEST_START, value_of(entry.title)), value_of(entry.summary)),
        16,
    );
    lemma_hex_len(
        digest(digest(DIGEST_START, feed.title.value), value_of(feed.description)),
        16,
    );
}

proof fn lemma_first_href(links: Seq<LinkView>)
    ensures
        first_href(links) matches Some(href) ==> href.len() > 0,
    decreases links.len(),
{
    if links.len() > 0 {
        lemma_first_href(links.skip(1));
    }
}

fn find_href(links: &Vec<Link>) -> (href: Option<&String>)
    ensures
        optional_view(href) == first_href(views(links@)),
        href matches Some(href) ==> href@.len() > 0,
{
    let ghost all = views(links@);
    let mut i: usize = 0;
    assert(all.skip(0) =~= all);
    while i < links.len()
        invariant
            i <= links.len(),
            all == views(links@),
            first_href(all) == first_href(all.skip(i as int)),
        decreases links.len() - i,
    {
        let enclosed = match &links[i].rel {
            Some(rel) => same_text(rel.as_str(), "enclosure"),
            None => false,
        };
        if !enclosed && !links[i].href.as_str().is_empty() {
            return Some(&links[i].href);
        }
        assert(all.skip(i as int).skip(1) =~= all.skip(i + 1));
        i = i + 1;
    }
    None
}

fn text_or_empty(text: &Option<Text>) -> (value: &str)
    ensures
        value@ == value_of(optional_view(*text)),
{
    match text {
        Some(text) => text.value.as_str(),
        None => {
            let empty = "";
            proof {
                reveal_strlit("");
            }
            assert(empty@ =~= Seq::<char>::empty());
            empty
        },
    }
}

/// Gives an entry that has no identifier one made up from what it holds.
pub fn identify_entry(entry: Entry) -> (res: Entry)
    ensures
        res@ == identified_entry(entry@),
        res@.id.len() > 0,
{
    let mut entry = entry;
    if entry.id.as_str().is_empty() {
        let id = synthesize_id(
            find_href(&entry.links),
            text_or_empty(&entry.title),
            text_or_empty(&entry.summary),
        );
        entry.id = id;
    }
    entry
}

/// Gives a feed that has no identifier one made up from what it holds.
pub fn identify_feed(feed: Feed) -> (res: Feed)
    ensures
        res@ == identified_feed(feed@),
        res@.id.len() > 0,
{
    let mut feed = feed;
    if feed.id.as_str().is_empty() {
        let id = synthesize_id(
            find_href(&feed.links),
            feed.title.value.as_str(),
            text_or_empty(&feed.description),
        );
        feed.id = id;
    }
    feed
}

/// The elements among `nodes` that belong to the dialect with the given
/// namespace and have the given name, in the order of `nodes`.
pub open spec fn named_children(nodes: Seq<Node>, namespace: Seq<char>, name: Seq<char>) -> Seq<
    Node,
>
    decreases nodes.len(),
{
    if nodes.len() == 0 {
        Seq::empty()
    } else if in_namespace(nodes[0].tag, namespace) && nodes[0].tag.name == name {
        seq![nodes[0]] + named_children(nodes.skip(1), namespace, name)
    } else {
        named_children(nodes.skip(1), namespace, name)
    }
}

/// That `entries` are what `read` makes of `nodes`, one for one and in the
/// same order, after the entries `before`.
pub open spec fn in_order(
    entries: Seq<EntryView>,
    before: Seq<EntryView>,
    nodes: Seq<Node>,
    read: spec_fn(Node) -> Result<EntryView, Failure>,
) -> bool {
    &&& entries.len() == before.len() + nodes.len()
    &&& forall|i: int| 0 <= i < before.len() ==> entries[i] == before[i]
    &&& forall|i: int|
        0 <= i < nodes.len() ==> read(#[trigger] nodes[i]) == Ok::<EntryView, Failure>(
            entries[before.len() + i],
        )
}

/// `in_order`, one node further on: the first node was read, and the others
/// follow.
pub proof fn lemma_in_order_first(
    entries: Seq<EntryView>,
    before: Seq<EntryView>,
    first: Node,
    rest: Seq<Node>,
    read: spec_fn(Node) -> Result<EntryView, Failure>,
)
    requires
        read(first) is Ok,
        in_order(entries, before.push(read(first)->Ok_0), rest, read),
    ensures
        in_order(entries, before, seq![first] + rest, read),
{
    let nodes = seq![first] + rest;
    let grown = before.push(read(first)->Ok_0);
    assert forall|i: int| 0 <= i < before.len() implies entries[i] == before[i] by {
        assert(entries[i] == grown[i]);
    }
    assert forall|i: int| 0 <= i < nodes.len() implies read(#[trigger] nodes[i]) == Ok::<
        EntryView,
        Failure,
    >(entries[before.len() + i]) by {
        if i == 0 {
            assert(entries[before.len() as int] == grown[before.len() as int]);
        } else {
            assert(nodes[i] == rest[i - 1]);
        }
    }
}

/// An entry that brings no identifier takes the address of its first link
/// that is no enclosure and has an address. Without such a link its
/// identifier is made of sixteen hexadecimal digits, which its title and its
/// summary decide.
pub proof fn law_made_up_identifier(entry: EntryView)
    requires
        entry.id.len() == 0,
    ensures
        first_href(entry.links) matches Some(href) ==> identified_entry(entry).id == href,
        first_href(entry.links) is None ==> identified_entry(entry).id == hex(
            digest(digest(DIGEST_START, value_of(entry.title)), value_of(entry.summary)),
            16,
        ),
        identified_entry(entry) == (EntryView { id: identified_entry(entry).id, ..entry }),
{
}

/// A link that cannot name its holder, such as an enclosure, has no part in
/// the choice of the first link that can, wherever it is added.
pub proof fn law_other_links_do_not_identify(
    before: Seq<LinkView>,
    link: LinkView,
    after: Seq<LinkView>,
)
    requires
        !names_its_holder(link),
    ensures
        first_href(before + seq![link] + after) == first_href(before + after),
    decreases before.len(),
{
    if before.len() == 0 {
        assert(before + seq![link] + after =~= seq![link] + after);
        assert((seq![link] + after).skip(1) =~= after);
        assert(before + after =~= after);
    } else {
        law_other_links_do_not_identify(before.skip(1), link, after);
        assert((before + seq![link] + after).skip(1) =~= before.skip(1) + seq![link] + after);
        assert((before + after).skip(1) =~= before.skip(1) + after);
    }
}

/// What a link that is added behind the others changes in the choice of the
/// first link that can name its holder: nothing where one was there, and
/// else the choice falls on the new link where it can.
pub proof fn lemma_first_href_push(links: Seq<LinkView>, link: LinkView)
    ensures
        first_href(links.push(link)) == match first_href(links) {
            Some(href) => Some(href),
            None => if names_its_holder(link) {
                Some(link.href)
            } else {
                None
            },
        },
    decreases links.len(),
{
    let longer = links.push(link);
    if links.len() == 0 {
        assert(longer.skip(1) =~= Seq::<LinkView>::empty());
        assert(first_href(longer.skip(1)) is None);
    } else {
        assert(longer[0] == links[0]);
        assert(longer.skip(1) =~= links.skip(1).push(link));
        lemma_first_href_push(links.skip(1), link);
    }
}

} // verus!
