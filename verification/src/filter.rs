use vstd::prelude::*;

use crate::generator::builder_allow_function;
use crate::generator::builder_allow_type;
use crate::generator::builder_allow_var;
use crate::generator::builder_deny_function;
use crate::generator::builder_deny_item;
use crate::generator::builder_deny_type;
use crate::generator::builder_filters;
use crate::generator::builder_headers;
use crate::item::Item;

verus! {

/// The direction of a filter set: allow-listed items are the only ones
/// generated, deny-listed items are left out of an otherwise full header.
#[derive(Clone, Copy, Debug, PartialEq, Eq, Structural)]
pub enum FilterType {
    Whitelist,
    Blacklist,
}

/// The six generator configuration mutations, one per combination of
/// filter direction and item kind.
#[derive(Clone, Copy, Debug, PartialEq, Eq, Structural)]
pub enum MutationOp {
    AllowFunction,
    AllowType,
    AllowVariable,
    DenyFunction,
    DenyType,
    DenyItem,
}

/// The one lookup table behind filter dispatch: which generator mutation a
/// filter of direction `direction` and kind `item` issues.
pub open spec fn mutation_for(direction: FilterType, item: Item) -> MutationOp {
    match (direction, item) {
        (FilterType::Whitelist, Item::Function) => MutationOp::AllowFunction,
        (FilterType::Whitelist, Item::Type) => MutationOp::AllowType,
        (FilterType::Whitelist, Item::Item) => MutationOp::AllowVariable,
        (FilterType::Blacklist, Item::Function) => MutationOp::DenyFunction,
        (FilterType::Blacklist, Item::Type) => MutationOp::DenyType,
        (FilterType::Blacklist, Item::Item) => MutationOp::DenyItem,
    }
}

/// The mutation issued for one filter, as a value.
pub fn mutation_op(direction: FilterType, item: Item) -> (op: MutationOp)
    ensures
        op == mutation_for(direction, item),
{
    match (direction, item) {
        (FilterType::Whitelist, Item::Function) => MutationOp::AllowFunction,
        (FilterType::Whitelist, Item::Type) => MutationOp::AllowType,
        (FilterType::Whitelist, Item::Item) => MutationOp::AllowVariable,
        (FilterType::Blacklist, Item::Function) => MutationOp::DenyFunction,
        (FilterType::Blacklist, Item::Type) => MutationOp::DenyType,
        (FilterType::Blacklist, Item::Item) => MutationOp::DenyItem,
    }
}

/// An item from a header, useful for whitelisting or blacklisting.
#[derive(Debug)]
pub struct Filter {
    /// The type of item to filter.
    item: Item,
    /// The ident of the item to filter.
    name: String,
}

impl View for Filter {
    type V = (Seq<char>, Item);

    closed spec fn view(&self) -> (Seq<char>, Item) {
        (self.name@, self.item)
    }
}

impl DeepView for Filter {
    type V = (Seq<char>, Item);

    open spec fn deep_view(&self) -> (Seq<char>, Item) {
        self.view()
    }
}

impl Filter {
    /// A filter targeting the item named `name` of kind `item`.
    pub fn new(item: Item, name: String) -> (f: Filter)
        ensures
            f@ == (name@, item),
    {
        Filter { item, name }
    }

    /// The kind of item this filter targets.
    pub fn item(&self) -> (it: Item)
        ensures
            it == self@.1,
    {
        self.item
    }

    /// The name of the item this filter targets.
    pub fn name(&self) -> (n: &String)
        ensures
            n@ == self@.0,
    {
        &self.name
    }
}

impl Filter {
    /// Apply this filter to the generator configuration: issue exactly
    /// the one mutation the dispatch table picks for the given direction
    /// and this filter's kind, for this filter's name.
    pub fn build(self, builder: bindgen::Builder, direction: FilterType) -> (r: bindgen::Builder)
        ensures
            builder_filters(r) == builder_filters(builder).insert(
                (mutation_for(direction, self@.1), self@.0),
            ),
            builder_headers(r) == builder_headers(builder),
    {
        match mutation_op(direction, self.item) {
            MutationOp::AllowFunction => builder_allow_function(builder, self.name.as_str()),
            MutationOp::AllowType => builder_allow_type(builder, self.name.as_str()),
            MutationOp::AllowVariable => builder_allow_var(builder, self.name.as_str()),
            MutationOp::DenyFunction => builder_deny_function(builder, self.name.as_str()),
            MutationOp::DenyType => builder_deny_type(builder, self.name.as_str()),
            MutationOp::DenyItem => builder_deny_item(builder, self.name.as_str()),
        }
    }
}

} // verus!
