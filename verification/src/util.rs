//! What the dialect mappers share: the document model, the element source and
//! the readers of small text formats.
use vstd::prelude::*;
use crate::util::document::AttributeView;
use crate::util::document::views;
use crate::util::element_source::Attribute;
use crate::util::text::same_text;

pub mod digest;
pub mod document;
pub mod element_source;
pub mod mime;
pub mod number;
pub mod text;
pub mod timestamp;

verus! {

/// The value of the first attribute with the given local name.
pub open spec fn attr_of(attributes: Seq<AttributeView>, name: Seq<char>) -> Option<Seq<char>>
    decreases attributes.len(),
{
    if attributes.len() == 0 {
        None
    } else if attributes[0].name == name {
        Some(attributes[0].value)
    } else {
        attr_of(attributes.skip(1), name)
    }
}

/// Looks an attribute up by its local name.
pub fn attr_value<'a>(attributes: &'a Vec<Attribute>, name: &str) -> (value: Option<&'a str>)
    ensures
        match value {
            Some(value) => attr_of(views(attributes@), name@) == Some(value@),
            None => attr_of(views(attributes@), name@) is None,
        },
{
    let ghost all = views(attributes@);
    let mut i: usize = 0;
    assert(all.skip(0) =~= all);
    while i < attributes.len()
        invariant
            i <= attributes.len(),
            all == views(attributes@),
            attr_of(all, name@) == attr_of(all.skip(i as int), name@),
        decreases attributes.len() - i,
    {
        if same_text(attributes[i].name.as_str(), name) {
            return Some(attributes[i].value.as_str());
        }
        assert(all.skip(i as int).skip(1) =~= all.skip(i + 1));
        i = i + 1;
    }
    None
}

} // verus!
