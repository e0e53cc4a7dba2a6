use vstd::prelude::*;

use crate::text::str_eq;

verus! {

/// Available items to target from a header.
#[derive(Clone, Copy, Debug, PartialEq, Eq, Structural)]
pub enum Item {
    /// A function declaration.
    Function,
    /// A variable or other global item.
    Item,
    /// A type declaration.
    Type,
}

/// The filter kind named by `s` in a descriptor, if any.
pub open spec fn kind_of(s: Seq<char>) -> Option<Item> {
    if s == "function"@ {
        Some(Item::Function)
    } else if s == "type"@ {
        Some(Item::Type)
    } else if s == "item"@ {
        Some(Item::Item)
    } else {
        None
    }
}

/// The filter kind named by `s`, as a value.
pub fn kind_value(s: &str) -> (r: Option<Item>)
    ensures
        r == kind_of(s@),
{
    if str_eq(s, "function") {
        Some(Item::Function)
    } else if str_eq(s, "type") {
        Some(Item::Type)
    } else if str_eq(s, "item") {
        Some(Item::Item)
    } else {
        None
    }
}

} // verus!
