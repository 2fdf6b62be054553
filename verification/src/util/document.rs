//! The mathematical model of a document: a stream of events, and the tree of
//! elements that the stream spells out.
use vstd::prelude::*;

verus! {

/// The views of the items of a sequence, in the same order.
pub open spec fn views<T: View>(items: Seq<T>) -> Seq<T::V> {
    items.map_values(|item: T| item@)
}

/// The view of an optional item.
pub open spec fn optional_view<T: View>(item: Option<T>) -> Option<T::V> {
    match item {
        Some(item) => Some(item@),
        None => None,
    }
}

/// Adding an item to a vector adds its view to the views.
pub proof fn lemma_views_push<T: View>(items: Seq<T>, item: T)
    ensures
        views(items.push(item)) == views(items).push(item@),
{
    assert(views(items.push(item)) =~= views(items).push(item@));
}

/// An attribute of a start tag.
pub struct AttributeView {
    pub name: Seq<char>,
    pub namespace: Option<Seq<char>>,
    pub value: Seq<char>,
}

/// A start tag: the local name, the namespace it is bound to, the attributes in
/// the order in which they were written.
pub struct TagView {
    pub name: Seq<char>,
    pub namespace: Option<Seq<char>>,
    pub attributes: Seq<AttributeView>,
}

/// One item of the stream. `Other` stands for everything that carries no
/// content for a feed (the prologue, comments, processing instructions, white
/// space); `Fault` is the point at which the tokenizer gave up, with the error
/// that it reported. The end of the document is the end of the sequence.
pub enum Event {
    Open(TagView),
    Close,
    Text(Seq<char>),
    Other,
    Fault(xml::reader::Error),
}

/// An element as a tree. `text` is the character data directly inside it,
/// `children` are its child elements in document order. `fault` is the error
/// with which the tokenizer failed before the element was closed, if it did;
/// then `text` and `children` hold what came before the failure.
pub struct Node {
    pub tag: TagView,
    pub text: Seq<char>,
    pub children: Seq<Node>,
    pub fault: Option<xml::reader::Error>,
}

impl Node {
    /// Whether the tokenizer saw the element to its end.
    pub open spec fn intact(self) -> bool {
        self.fault is None
    }
}

/// The events that follow the end tag which closes the element we are in,
/// where `depth` further elements were opened inside it and are still open;
/// or the fault that comes first. A document that ends early closes every
/// element that is open.
pub open spec fn remainder(events: Seq<Event>, depth: nat) -> Result<
    Seq<Event>,
    xml::reader::Error,
>
    decreases events.len(),
{
    if events.len() == 0 {
        Ok(events)
    } else {
        match events[0] {
            Event::Fault(error) => Err(error),
            Event::Close => if depth == 0 {
                Ok(events.skip(1))
            } else {
                remainder(events.skip(1), (depth - 1) as nat)
            },
            Event::Open(_) => remainder(events.skip(1), depth + 1),
            _ => remainder(events.skip(1), depth),
        }
    }
}

/// The fault that the tokenizer reports before the element ends whose
/// content `events` starts with, if it reports one.
pub open spec fn fault_in(events: Seq<Event>) -> Option<xml::reader::Error> {
    match remainder(events, 0) {
        Ok(_) => None,
        Err(error) => Some(error),
    }
}

/// The character data directly inside the element whose content `events`
/// starts with: text of nested elements does not count.
pub open spec fn text_of(events: Seq<Event>) -> Seq<char>
    decreases events.len(),
{
    if events.len() == 0 {
        Seq::empty()
    } else {
        match events[0] {
            Event::Fault(_) => Seq::empty(),
            Event::Close => Seq::empty(),
            Event::Text(text) => text + text_of(events.skip(1)),
            Event::Other => text_of(events.skip(1)),
            Event::Open(_) => match remainder(events.skip(1), 0) {
                Ok(rest) => if rest.len() < events.len() {
                    text_of(rest)
                } else {
                    Seq::empty()
                },
                Err(_) => Seq::empty(),
            },
        }
    }
}

/// The child elements of the element whose content `events` starts with.
pub open spec fn children_of(events: Seq<Event>) -> Seq<Node>
    decreases events.len(),
{
    if events.len() == 0 {
        Seq::empty()
    } else {
        match events[0] {
            Event::Fault(_) => Seq::empty(),
            Event::Close => Seq::empty(),
            Event::Open(tag) => {
                let body = events.skip(1);
                let first = Node {
                    tag,
                    text: text_of(body),
                    children: children_of(body),
                    fault: fault_in(body),
                };
                match remainder(body, 0) {
                    Ok(rest) => if rest.len() < events.len() {
                        seq![first] + children_of(rest)
                    } else {
                        seq![first]
                    },
                    Err(_) => seq![first],
                }
            },
            _ => children_of(events.skip(1)),
        }
    }
}

/// The element with start tag `tag` whose content `body` starts with.
pub open spec fn element(tag: TagView, body: Seq<Event>) -> Node {
    Node {
        tag,
        text: text_of(body),
        children: children_of(body),
        fault: fault_in(body),
    }
}

/// What follows an element is never longer than what it started with.
pub proof fn lemma_remainder_shrinks(events: Seq<Event>, depth: nat)
    ensures
        remainder(events, depth) matches Ok(rest) ==> rest.len() <= events.len(),
    decreases events.len(),
{
    if events.len() > 0 {
        match events[0] {
            Event::Fault(_) => {},
            Event::Close => {
                if depth > 0 {
                    lemma_remainder_shrinks(events.skip(1), (depth - 1) as nat);
                }
            },
            Event::Open(_) => {
                lemma_remainder_shrinks(events.skip(1), depth + 1);
            },
            _ => {
                lemma_remainder_shrinks(events.skip(1), depth);
            },
        }
    }
}

/// Leaving `inner + outer + 1` open elements is leaving `inner + 1` of them
/// and then `outer` more.
pub proof fn lemma_remainder_splits(events: Seq<Event>, inner: nat, outer: nat)
    ensures
        remainder(events, inner + outer + 1) == match remainder(events, inner) {
            Ok(rest) => remainder(rest, outer),
            Err(error) => Err(error),
        },
    decreases events.len(),
{
    if events.len() > 0 {
        match events[0] {
            Event::Fault(_) => {},
            Event::Close => {
                if inner > 0 {
                    lemma_remainder_splits(events.skip(1), (inner - 1) as nat, outer);
                }
            },
            Event::Open(_) => {
                lemma_remainder_splits(events.skip(1), inner + 1, outer);
            },
            _ => {
                lemma_remainder_splits(events.skip(1), inner, outer);
            },
        }
    }
}

/// How a start tag at the head of a stream divides it: into the element that
/// the tag opens and what follows that element.
pub proof fn lemma_open_divides(events: Seq<Event>)
    requires
        events.len() > 0,
        events[0] is Open,
    ensures
        ({
            let body = events.skip(1);
            let first = element(events[0]->Open_0, body);
            match remainder(body, 0) {
                Ok(rest) => {
                    &&& rest.len() < events.len()
                    &&& children_of(events) == seq![first] + children_of(rest)
                    &&& text_of(events) == text_of(rest)
                    &&& remainder(events, 0) == remainder(rest, 0)
                },
                Err(error) => {
                    &&& children_of(events) == seq![first]
                    &&& remainder(events, 0) == Err::<Seq<Event>, xml::reader::Error>(error)
                },
            }
        }),
{
    let body = events.skip(1);
    lemma_remainder_shrinks(body, 0);
    lemma_remainder_splits(body, 0, 0);
}

} // verus!
