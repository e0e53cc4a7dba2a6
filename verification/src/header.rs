use vstd::prelude::*;

use vstd::multiset::Multiset;

use crate::error::DecodeError;
use crate::error::Error;
use crate::filter::Filter;
use crate::filter::FilterType;
use crate::filter::MutationOp;
use crate::filter::mutation_for;
use crate::generator::builder_add_header;
use crate::generator::builder_filters;
use crate::generator::builder_headers;
use crate::generator::builder_new;
use crate::item::Item;
use crate::text::DocModel;
use crate::text::filters_view;
use crate::text::parse_document;
use crate::text::parse_document_spec;

verus! {

broadcast use vstd::multiset::group_multiset_axioms;

/// Representation of a header to import and generate bindings to.
///
/// Its model is the decoded document: the header text (already carrying
/// the shared preprocessor prefix) and at most one of the two filter
/// sets.
pub struct Header {
    header: String,
    whitelist: Option<Vec<Filter>>,
    blacklist: Option<Vec<Filter>>,
}

impl View for Header {
    type V = DocModel;

    closed spec fn view(&self) -> DocModel {
        DocModel {
            header: self.header@,
            white: filters_view(self.whitelist),
            black: filters_view(self.blacklist),
        }
    }
}

impl DeepView for Header {
    type V = DocModel;

    open spec fn deep_view(&self) -> DocModel {
        self.view()
    }
}

/// What parsing the descriptor text `raw` under the shared preprocessor
/// prefix yields: the decode error, the dual-filter rejection, or the
/// finished header model.
pub open spec fn header_spec(raw: Seq<char>, prefix: Seq<char>) -> Result<DocModel, Error> {
    match parse_document_spec(raw) {
        Err(e) => Err(Error::Deserialize(e)),
        Ok(m) => if m.white is Some && m.black is Some {
            Err(Error::DualFilters)
        } else {
            Ok(DocModel { header: prefix + "\n"@ + m.header, white: m.white, black: m.black })
        },
    }
}

impl Header {
    /// Parse one descriptor text into a header.
    ///
    /// Fails with the decode error on malformed text; fails with
    /// `DualFilters` when the text gives both an allow and a deny filter
    /// set; otherwise succeeds, with the fixed preprocessor `prefix` and
    /// a line break prepended to the header text so every descriptor is
    /// compiled under the same baseline configuration.
    pub fn new(raw: &str, prefix: &str) -> (r: Result<Header, Error>)
        ensures
            parse_document_spec(raw@) matches Err(e) ==> r matches Err(err) && err
                == Error::Deserialize(e),
            parse_document_spec(raw@) matches Ok(m) ==> ((m.white is Some && m.black is Some)
                ==> (r matches Err(err) && err == Error::DualFilters)),
            parse_document_spec(raw@) matches Ok(m) ==> (!(m.white is Some && m.black is Some)
                ==> (r matches Ok(h) && h@.header == prefix@ + "\n"@ + m.header && h@.white
                == m.white && h@.black == m.black)),
            header_spec(raw@, prefix@) matches Err(e) ==> (r matches Err(e2) && e2 == e),
            header_spec(raw@, prefix@) matches Ok(m) ==> (r matches Ok(h) && h@ == m),
    {
        let d = match parse_document(raw) {
            Err(e) => {
                return Err(Error::Deserialize(e));
            },
            Ok(d) => d,
        };
        if d.whitelist.is_some() && d.blacklist.is_some() {
            return Err(Error::DualFilters);
        }
        let mut text = String::from_str(prefix);
        text.append("\n");
        text.append(d.header.as_str());
        Ok(Header { header: text, whitelist: d.whitelist, blacklist: d.blacklist })
    }

    /// The header declaration text, with the prefix already in place.
    pub fn header_text(&self) -> (t: &String)
        ensures
            t@ == self@.header,
    {
        &self.header
    }

    /// The allow filter set, if one was given.
    pub fn whitelist(&self) -> (fs: &Option<Vec<Filter>>)
        ensures
            filters_view(*fs) == self@.white,
    {
        &self.whitelist
    }

    /// The deny filter set, if one was given.
    pub fn blacklist(&self) -> (fs: &Option<Vec<Filter>>)
        ensures
            filters_view(*fs) == self@.black,
    {
        &self.blacklist
    }
}

/// The filter mutations that applying the set `fs` in direction
/// `direction` issues: one per entry, picked by the dispatch table.
pub open spec fn filters_multiset(fs: Seq<(Seq<char>, Item)>, direction: FilterType) -> Multiset<
    (MutationOp, Seq<char>),
>
    decreases fs.len(),
{
    if fs.len() == 0 {
        Multiset::empty()
    } else {
        filters_multiset(fs.drop_last(), direction).insert(
            (mutation_for(direction, fs.last().1), fs.last().0),
        )
    }
}

/// All generator mutations a header issues: those of its allow set if one
/// was given, else those of its deny set if one was given, else none.
pub open spec fn header_mutations(m: DocModel) -> Multiset<(MutationOp, Seq<char>)> {
    match m.white {
        Some(fs) => filters_multiset(fs, FilterType::Whitelist),
        None => match m.black {
            Some(fs) => filters_multiset(fs, FilterType::Blacklist),
            None => Multiset::empty(),
        },
    }
}

/// With no filter set at all, filter application is a no-op: the header
/// issues no generator mutation, and the configuration keeps exactly the
/// filter entries it started with.
pub proof fn lemma_no_filters_no_mutations(m: DocModel)
    requires
        m.white is None,
        m.black is None,
    ensures
        header_mutations(m) == Multiset::<(MutationOp, Seq<char>)>::empty(),
{
}

impl Header {
    /// Turn this header into a generator configuration: the header text
    /// becomes the one input header, and the filter set (if any) is
    /// applied entry by entry. The resulting configuration holds exactly
    /// this header's mutations and nothing else.
    pub fn into_builder(self, name: &str) -> (b: bindgen::Builder)
        ensures
            builder_headers(b) == Seq::<Seq<char>>::empty().push(self@.header),
            builder_filters(b) == header_mutations(self@),
    {
        let ghost model = self@;
        let mut builder = builder_new();
        builder = builder_add_header(builder, name, self.header.as_str());
        proof {
            assert(builder_filters(builder) =~= Multiset::<(MutationOp, Seq<char>)>::empty());
        }
        let picked = match (self.whitelist, self.blacklist) {
            (Some(fs), _) => Some((fs, FilterType::Whitelist)),
            (None, Some(fs)) => Some((fs, FilterType::Blacklist)),
            (None, None) => None,
        };
        match picked {
            None => builder,
            Some((mut fs, direction)) => {
                let ghost all = fs.deep_view();
                proof {
                    assert(header_mutations(model) == filters_multiset(all, direction));
                    assert(filters_multiset(all, direction) =~= filters_multiset(
                        fs.deep_view(),
                        direction,
                    ).add(builder_filters(builder)));
                }
                while fs.len() > 0
                    invariant
                        filters_multiset(all, direction) == filters_multiset(
                            fs.deep_view(),
                            direction,
                        ).add(builder_filters(builder)),
                        builder_headers(builder) == Seq::<Seq<char>>::empty().push(model.header),
                    decreases fs.len(),
                {
                    let ghost pre = fs.deep_view();
                    let ghost bf = builder_filters(builder);
                    let f = fs.pop().unwrap();
                    proof {
                        assert(fs.deep_view() =~= pre.drop_last());
                        assert(f.deep_view() == pre.last());
                    }
                    let ghost x = (mutation_for(direction, f@.1), f@.0);
                    builder = f.build(builder, direction);
                    proof {
                        assert(filters_multiset(pre, direction) == filters_multiset(
                            pre.drop_last(),
                            direction,
                        ).insert(x));
                        assert(filters_multiset(pre.drop_last(), direction).insert(x).add(bf)
                            =~= filters_multiset(pre.drop_last(), direction).add(bf.insert(x)));
                    }
                }
                proof {
                    assert(fs.deep_view().len() == 0);
                    assert(filters_multiset(fs.deep_view(), direction) == Multiset::<(
                        MutationOp,
                        Seq<char>,
                    )>::empty());
                    assert(filters_multiset(all, direction) =~= builder_filters(builder));
                }
                builder
            },
        }
    }
}

} // verus!
