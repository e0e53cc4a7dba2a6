use vstd::prelude::*;

use vstd::multiset::Multiset;

use crate::filter::MutationOp;

verus! {

#[verifier::external_type_specification]
#[verifier::external_body]
pub struct ExBuilder(bindgen::Builder);

/// The filter mutations a generator configuration has been given so far:
/// one entry per issued mutation, carrying the mutation operation and the
/// item name it was issued for.
pub uninterp spec fn builder_filters(b: bindgen::Builder) -> Multiset<(MutationOp, Seq<char>)>;

/// The input header texts a generator configuration has been given so
/// far, in order.
pub uninterp spec fn builder_headers(b: bindgen::Builder) -> Seq<Seq<char>>;

/// Relies on bindgen::Builder::default: a fresh generator configuration
/// holds no filter entries and no input headers.
#[verifier::external_body]
pub(crate) fn builder_new() -> (b: bindgen::Builder)
    ensures
        builder_filters(b) == Multiset::<(MutationOp, Seq<char>)>::empty(),
        builder_headers(b) == Seq::<Seq<char>>::empty(),
{
    bindgen::Builder::default()
}

/// Relies on bindgen::Builder::header_contents: appends the given text as
/// one more input header and touches no filter entry. The name is made
/// absolute against the process working directory before it is recorded,
/// and the call aborts if that directory cannot be read.
#[verifier::external_body]
pub(crate) fn builder_add_header(b: bindgen::Builder, name: &str, contents: &str) -> (r:
    bindgen::Builder)
    ensures
        builder_headers(r) == builder_headers(b).push(contents@),
        builder_filters(r) == builder_filters(b),
{
    b.header_contents(name, contents)
}

/// Relies on bindgen::Builder::allowlist_function: records one more
/// allow-function entry for the given name and touches nothing else.
#[verifier::external_body]
pub(crate) fn builder_allow_function(b: bindgen::Builder, name: &str) -> (r: bindgen::Builder)
    ensures
        builder_filters(r) == builder_filters(b).insert((MutationOp::AllowFunction, name@)),
        builder_headers(r) == builder_headers(b),
{
    b.allowlist_function(name)
}

/// Relies on bindgen::Builder::allowlist_type: records one more
/// allow-type entry for the given name and touches nothing else.
#[verifier::external_body]
pub(crate) fn builder_allow_type(b: bindgen::Builder, name: &str) -> (r: bindgen::Builder)
    ensures
        builder_filters(r) == builder_filters(b).insert((MutationOp::AllowType, name@)),
        builder_headers(r) == builder_headers(b),
{
    b.allowlist_type(name)
}

/// Relies on bindgen::Builder::allowlist_var: records one more
/// allow-variable entry for the given name and touches nothing else.
#[verifier::external_body]
pub(crate) fn builder_allow_var(b: bindgen::Builder, name: &str) -> (r: bindgen::Builder)
    ensures
        builder_filters(r) == builder_filters(b).insert((MutationOp::AllowVariable, name@)),
        builder_headers(r) == builder_headers(b),
{
    b.allowlist_var(name)
}

/// Relies on bindgen::Builder::blocklist_function: records one more
/// deny-function entry for the given name and touches nothing else.
#[verifier::external_body]
pub(crate) fn builder_deny_function(b: bindgen::Builder, name: &str) -> (r: bindgen::Builder)
    ensures
        builder_filters(r) == builder_filters(b).insert((MutationOp::DenyFunction, name@)),
        builder_headers(r) == builder_headers(b),
{
    b.blocklist_function(name)
}

/// Relies on bindgen::Builder::blocklist_type: records one more
/// deny-type entry for the given name and touches nothing else.
#[verifier::external_body]
pub(crate) fn builder_deny_type(b: bindgen::Builder, name: &str) -> (r: bindgen::Builder)
    ensures
        builder_filters(r) == builder_filters(b).insert((MutationOp::DenyType, name@)),
        builder_headers(r) == builder_headers(b),
{
    b.blocklist_type(name)
}

/// Relies on bindgen::Builder::blocklist_item: records one more
/// deny-item entry for the given name and touches nothing else.
#[verifier::external_body]
pub(crate) fn builder_deny_item(b: bindgen::Builder, name: &str) -> (r: bindgen::Builder)
    ensures
        builder_filters(r) == builder_filters(b).insert((MutationOp::DenyItem, name@)),
        builder_headers(r) == builder_headers(b),
{
    b.blocklist_item(name)
}

} // verus!
