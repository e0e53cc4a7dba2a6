use vstd::prelude::*;

use vstd::multiset::Multiset;
use vstd::relations::antisymmetric;
use vstd::relations::reflexive;
use vstd::relations::sorted_by;
use vstd::relations::strongly_connected;
use vstd::relations::total_ordering;
use vstd::relations::transitive;
use vstd::seq_lib::lemma_sorted_unique;

use crate::text::str_eq;

verus! {

broadcast use {vstd::multiset::group_multiset_axioms, vstd::seq_lib::group_to_multiset_ensures};

// ---------------------------------------------------------------------
// Lexicographic order on names
// ---------------------------------------------------------------------
/// Lexicographic order on text, by scalar value.
pub open spec fn lex_le(a: Seq<char>, b: Seq<char>) -> bool
    decreases a.len(),
{
    if a.len() == 0 {
        true
    } else if b.len() == 0 {
        false
    } else if (a.first() as u32) < (b.first() as u32) {
        true
    } else if (b.first() as u32) < (a.first() as u32) {
        false
    } else {
        lex_le(a.drop_first(), b.drop_first())
    }
}

/// The order as a value-level relation, for the sorting vocabulary.
pub open spec fn lex_leq_fn() -> spec_fn(Seq<char>, Seq<char>) -> bool {
    |x: Seq<char>, y: Seq<char>| lex_le(x, y)
}

/// Two characters with the same scalar value are the same character.
proof fn lemma_char_scalar_injective(c1: char, c2: char)
    requires
        (c1 as u32) == (c2 as u32),
    ensures
        c1 == c2,
{
}

pub proof fn lemma_lex_le_refl(a: Seq<char>)
    ensures
        lex_le(a, a),
    decreases a.len(),
{
    if a.len() > 0 {
        lemma_lex_le_refl(a.drop_first());
    }
}

pub proof fn lemma_lex_le_total(a: Seq<char>, b: Seq<char>)
    ensures
        lex_le(a, b) || lex_le(b, a),
    decreases a.len(),
{
    if a.len() > 0 && b.len() > 0 && (a.first() as u32) == (b.first() as u32) {
        lemma_lex_le_total(a.drop_first(), b.drop_first());
    }
}

pub proof fn lemma_lex_le_antisym(a: Seq<char>, b: Seq<char>)
    requires
        lex_le(a, b),
        lex_le(b, a),
    ensures
        a == b,
    decreases a.len(),
{
    if a.len() == 0 {
        assert(b.len() == 0);
        assert(a =~= b);
    } else {
        assert(b.len() > 0);
        assert((a.first() as u32) == (b.first() as u32));
        assert(a.first() == b.first()) by {
            lemma_char_scalar_injective(a.first(), b.first());
        }
        lemma_lex_le_antisym(a.drop_first(), b.drop_first());
        assert(a =~= b) by {
            assert(a.drop_first() =~= b.drop_first());
            assert forall|i: int| 0 <= i < a.len() implies a[i] == b[i] by {
                if i > 0 {
                    assert(a[i] == a.drop_first()[i - 1]);
                    assert(b[i] == b.drop_first()[i - 1]);
                }
            }
        }
    }
}

pub proof fn lemma_lex_le_trans(a: Seq<char>, b: Seq<char>, c: Seq<char>)
    requires
        lex_le(a, b),
        lex_le(b, c),
    ensures
        lex_le(a, c),
    decreases a.len(),
{
    if a.len() > 0 {
        assert(b.len() > 0);
        assert(c.len() > 0);
        if (a.first() as u32) == (b.first() as u32) && (b.first() as u32) == (c.first() as u32) {
            lemma_lex_le_trans(a.drop_first(), b.drop_first(), c.drop_first());
        }
    }
}

/// The lexicographic order is a total ordering, so sorting by it has one
/// unique result.
pub proof fn lemma_lex_total_ordering()
    ensures
        total_ordering(lex_leq_fn()),
{
    let leq = lex_leq_fn();
    assert(reflexive(leq)) by {
        assert forall|x: Seq<char>| #[trigger] leq(x, x) by {
            lemma_lex_le_refl(x);
        }
    }
    assert(transitive(leq)) by {
        assert forall|x: Seq<char>, y: Seq<char>, z: Seq<char>|
            #[trigger] leq(x, y) && #[trigger] leq(y, z) implies #[trigger] leq(x, z) by {
            lemma_lex_le_trans(x, y, z);
        }
    }
    assert(antisymmetric(leq)) by {
        assert forall|x: Seq<char>, y: Seq<char>|
            #[trigger] leq(x, y) && #[trigger] leq(y, x) implies x == y by {
            lemma_lex_le_antisym(x, y);
        }
    }
    assert(strongly_connected(leq)) by {
        assert forall|x: Seq<char>, y: Seq<char>| #[trigger] leq(x, y) || #[trigger] leq(y, x) by {
            lemma_lex_le_total(x, y);
        }
    }
}

/// Whether `a` comes no later than `b` in lexicographic order.
pub fn str_le(a: &str, b: &str) -> (r: bool)
    ensures
        r == lex_le(a@, b@),
{
    let na = a.unicode_len();
    let nb = b.unicode_len();
    let mut i: usize = 0;
    proof {
        assert(a@.skip(0) =~= a@);
        assert(b@.skip(0) =~= b@);
    }
    while i < na && i < nb
        invariant
            i <= na,
            i <= nb,
            na == a@.len(),
            nb == b@.len(),
            lex_le(a@, b@) == lex_le(a@.skip(i as int), b@.skip(i as int)),
            lex_le(b@, a@) == lex_le(b@.skip(i as int), a@.skip(i as int)),
        decreases na - i,
    {
        let ca = a.get_char(i);
        let cb = b.get_char(i);
        if (ca as u32) < (cb as u32) {
            return true;
        }
        if (cb as u32) < (ca as u32) {
            return false;
        }
        proof {
            assert(a@.skip(i as int).drop_first() =~= a@.skip(i + 1));
            assert(b@.skip(i as int).drop_first() =~= b@.skip(i + 1));
        }
        i += 1;
    }
    proof {
        if i == na {
            assert(a@.skip(i as int).len() == 0);
        } else {
            assert(b@.skip(i as int).len() == 0);
            assert(a@.skip(i as int).len() > 0);
        }
    }
    i == na
}

// ---------------------------------------------------------------------
// Sorting the module names
// ---------------------------------------------------------------------
/// Sort module names lexicographically: the result is ordered and holds
/// exactly the given names.
pub fn sort_names(names: Vec<String>) -> (r: Vec<String>)
    ensures
        r.deep_view().to_multiset() == names.deep_view().to_multiset(),
        sorted_by(r.deep_view(), lex_leq_fn()),
{
    let ghost orig = names.deep_view();
    let mut rest = names;
    let mut out: Vec<String> = Vec::new();
    proof {
        assert(out.deep_view() =~= Seq::<Seq<char>>::empty());
        assert(out.deep_view().to_multiset().add(rest.deep_view().to_multiset())
            =~= orig.to_multiset());
    }
    while rest.len() > 0
        invariant
            out.deep_view().to_multiset().add(rest.deep_view().to_multiset()) == orig.to_multiset(),
            sorted_by(out.deep_view(), lex_leq_fn()),
            forall|i: int, j: int|
                0 <= i < out.deep_view().len() && 0 <= j < rest.deep_view().len() ==> lex_le(
                    out.deep_view()[i],
                    rest.deep_view()[j],
                ),
        decreases rest.len(),
    {
        let ghost rest_pre = rest.deep_view();
        let mut m: usize = 0;
        let mut k: usize = 1;
        proof {
            lemma_lex_le_refl(rest_pre[0]);
        }
        while k < rest.len()
            invariant
                m < k <= rest.len(),
                rest.deep_view() == rest_pre,
                forall|j: int| 0 <= j < k ==> lex_le(rest_pre[m as int], rest_pre[j]),
            decreases rest.len() - k,
        {
            if str_le(rest[k].as_str(), rest[m].as_str()) {
                proof {
                    assert forall|j: int| 0 <= j < k + 1 implies lex_le(
                        rest_pre[k as int],
                        rest_pre[j],
                    ) by {
                        if j < k {
                            lemma_lex_le_trans(rest_pre[k as int], rest_pre[m as int], rest_pre[j]);
                        } else {
                            lemma_lex_le_refl(rest_pre[k as int]);
                        }
                    }
                }
                m = k;
            } else {
                proof {
                    lemma_lex_le_total(rest_pre[k as int], rest_pre[m as int]);
                }
            }
            k += 1;
        }
        let ghost out_pre = out.deep_view();
        let x = rest.remove(m);
        proof {
            assert(rest.deep_view() =~= rest_pre.remove(m as int));
            assert(rest_pre.to_multiset() =~= rest_pre.remove(m as int).to_multiset().insert(
                rest_pre[m as int],
            )) by {
                rest_pre.to_multiset_ensures();
            }
        }
        out.push(x);
        proof {
            assert(out.deep_view() =~= out_pre.push(x.deep_view()));
            assert(x.deep_view() == rest_pre[m as int]);
            assert(out.deep_view().to_multiset() =~= out_pre.to_multiset().insert(x.deep_view()));
            assert(out.deep_view().to_multiset().add(rest.deep_view().to_multiset())
                =~= orig.to_multiset());
            let dv = out.deep_view();
            assert(sorted_by(dv, lex_leq_fn())) by {
                assert forall|i: int, j: int| 0 <= i < j < dv.len() implies lex_leq_fn()(
                    dv[i],
                    dv[j],
                ) by {
                    if j < dv.len() - 1 {
                        assert(sorted_by(out_pre, lex_leq_fn()));
                        assert(lex_leq_fn()(out_pre[i], out_pre[j]));
                    } else {
                        assert(dv[j] == rest_pre[m as int]);
                        assert(lex_le(out_pre[i], rest_pre[m as int]));
                    }
                }
            }
            assert forall|i: int, j: int|
                0 <= i < out.deep_view().len() && 0 <= j < rest.deep_view().len() implies lex_le(
                out.deep_view()[i],
                rest.deep_view()[j],
            ) by {
                let rj = rest.deep_view()[j];
                assert(rest.deep_view() == rest_pre.remove(m as int));
                if j < m {
                    assert(rj == rest_pre[j]);
                } else {
                    assert(rj == rest_pre[j + 1]);
                }
                if i < out.deep_view().len() - 1 {
                    assert(lex_le(out_pre[i], rest_pre[m as int]));
                    assert(lex_le(rest_pre[m as int], rj));
                    lemma_lex_le_trans(out_pre[i], rest_pre[m as int], rj);
                } else {
                    assert(out.deep_view()[i] == rest_pre[m as int]);
                    assert(lex_le(rest_pre[m as int], rj));
                }
            }
        }
    }
    proof {
        assert(rest.deep_view() =~= Seq::<Seq<char>>::empty());
        assert(rest.deep_view().to_multiset() =~= Multiset::<Seq<char>>::empty());
        assert(out.deep_view().to_multiset() =~= orig.to_multiset());
    }
    out
}

// ---------------------------------------------------------------------
// The root module
// ---------------------------------------------------------------------
/// The assembler rejects name collisions instead of letting one
/// generated module silently shadow another.
#[derive(Clone, Copy, Debug, PartialEq, Eq, Structural)]
pub enum AssembleError {
    /// Two descriptors carry the same name.
    Collision,
}

/// The root module line declaring the nested module `name`.
pub open spec fn root_line(name: Seq<char>) -> Seq<char> {
    "pub mod "@ + name + ";\n"@
}

/// The root module text declaring one nested module per name, in order.
pub open spec fn root_text(names: Seq<Seq<char>>) -> Seq<char>
    decreases names.len(),
{
    if names.len() == 0 {
        Seq::empty()
    } else {
        root_line(names.first()) + root_text(names.drop_first())
    }
}

/// The assembled root module: one nested module declaration per
/// descriptor name, in lexicographic order of the names.
pub open spec fn assemble_spec(names: Seq<Seq<char>>) -> Seq<char> {
    root_text(names.sort_by(lex_leq_fn()))
}

/// Once the explicit sort is applied, the assembled root module does not
/// depend on the order in which the descriptors were discovered: any two
/// listings of the same names yield the identical root text.
pub proof fn lemma_assemble_order_independent(a: Seq<Seq<char>>, b: Seq<Seq<char>>)
    requires
        a.to_multiset() == b.to_multiset(),
    ensures
        assemble_spec(a) == assemble_spec(b),
{
    lemma_lex_total_ordering();
    a.lemma_sort_by_ensures(lex_leq_fn());
    b.lemma_sort_by_ensures(lex_leq_fn());
    lemma_sorted_unique(a.sort_by(lex_leq_fn()), b.sort_by(lex_leq_fn()), lex_leq_fn());
}

/// Assemble the root module over the given descriptor names: sort them,
/// reject a collision, and declare one nested module per name.
pub fn assemble(names: Vec<String>) -> (r: Result<String, AssembleError>)
    ensures
        names.deep_view().no_duplicates() ==> (r matches Ok(t) && t@ == assemble_spec(
            names.deep_view(),
        )),
        !names.deep_view().no_duplicates() ==> r == Err::<String, AssembleError>(
            AssembleError::Collision,
        ),
{
    let ghost orig = names.deep_view();
    let sorted = sort_names(names);
    let ghost dv = sorted.deep_view();
    let mut i: usize = 1;
    #[verifier::loop_isolation(false)]
    while i < sorted.len()
        invariant
            1 <= i,
            sorted.deep_view() == dv,
            dv.to_multiset() == orig.to_multiset(),
            sorted_by(dv, lex_leq_fn()),
            forall|j: int| 1 <= j < i ==> dv[j - 1] != #[trigger] dv[j],
        decreases sorted.len() - i,
    {
        if str_eq(sorted[i - 1].as_str(), sorted[i].as_str()) {
            proof {
                assert(dv[i - 1] == dv[i as int]);
                if orig.no_duplicates() {
                    orig.lemma_multiset_has_no_duplicates();
                    assert forall|x: Seq<char>| dv.to_multiset().contains(x) implies
                        dv.to_multiset().count(x) == 1 by {
                        assert(orig.to_multiset().contains(x));
                    }
                    dv.lemma_multiset_has_no_duplicates_conv();
                    assert(dv.no_duplicates());
                    assert(dv[i - 1] != dv[i as int]);
                    assert(false);
                }
            }
            return Err(AssembleError::Collision);
        }
        i += 1;
    }
    proof {
        assert(dv.no_duplicates()) by {
            assert forall|p: int, q: int|
                0 <= p < dv.len() && 0 <= q < dv.len() && p != q implies dv[p] != dv[q] by {
                let (x, y) = if p < q {
                    (p, q)
                } else {
                    (q, p)
                };
                if dv[x] == dv[y] {
                    assert(lex_leq_fn()(dv[x], dv[x + 1]));
                    if x + 1 < y {
                        assert(lex_leq_fn()(dv[x + 1], dv[y]));
                    } else {
                        lemma_lex_le_refl(dv[y]);
                    }
                    lemma_lex_le_antisym(dv[x], dv[x + 1]);
                }
            }
        }
        dv.lemma_multiset_has_no_duplicates();
        orig.lemma_multiset_has_no_duplicates_conv();
        lemma_lex_total_ordering();
        orig.lemma_sort_by_ensures(lex_leq_fn());
        lemma_sorted_unique(dv, orig.sort_by(lex_leq_fn()), lex_leq_fn());
    }
    let mut t = String::new();
    let mut k: usize = 0;
    proof {
        assert(dv.skip(0) =~= dv);
        assert(t@ + root_text(dv) =~= root_text(dv));
    }
    while k < sorted.len()
        invariant
            k <= sorted.len(),
            sorted.deep_view() == dv,
            root_text(dv) == t@ + root_text(dv.skip(k as int)),
        decreases sorted.len() - k,
    {
        proof {
            assert(dv.skip(k as int).first() == dv[k as int]);
            assert(dv.skip(k as int).drop_first() =~= dv.skip(k + 1));
        }
        let ghost t_pre = t@;
        t.append("pub mod ");
        t.append(sorted[k].as_str());
        t.append(";\n");
        proof {
            assert(t@ =~= t_pre + root_line(dv[k as int]));
            assert(t_pre + root_line(dv[k as int]) + root_text(dv.skip(k + 1)) =~= t_pre + (
            root_line(dv[k as int]) + root_text(dv.skip(k + 1))));
        }
        k += 1;
    }
    proof {
        assert(dv.skip(sorted.len() as int) =~= Seq::<Seq<char>>::empty());
        assert(t@ =~= root_text(dv));
    }
    Ok(t)
}

} // verus!
