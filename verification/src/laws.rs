//! Document-wide laws, stated over the models that the builder's contracts
//! use and proved once and for all.

use vstd::prelude::*;
use crate::ast::{AstView, AstDefinition};
use crate::builder::{intern_post, adds_definition};

verus! {

/// Interning is idempotent and injective: two interning steps (first of text
/// `a`, then of text `b`) hand out the same handle exactly when the texts are
/// the same.
pub proof fn lemma_intern_idempotent(
    pre: Seq<Seq<char>>,
    mid: Seq<Seq<char>>,
    post: Seq<Seq<char>>,
    a: Seq<char>,
    b: Seq<char>,
    ia: int,
    ib: int,
)
    requires
        intern_post(pre, mid, a, ia),
        intern_post(mid, post, b, ib),
    ensures
        a == b ==> ib == ia,
        a != b ==> ib != ia,
{
    assert(mid[ia] == a);
    if a == b {
        assert(mid.contains(b)) by {
            assert(mid[ia] == b);
        }
        assert(ib == ia);
    } else {
        if mid.contains(b) {
            assert(post == mid);
            assert(post[ib] == b);
            assert(post[ia] == a);
        } else {
            assert(ib == mid.len());
            assert(ia < mid.len());
        }
    }
}

/// Top-level declaration order is preserved across heterogeneous kinds:
/// recording three definitions in order, whatever their kinds, appends
/// exactly their three index entries, in that order, after everything that
/// was already there.
pub proof fn lemma_definition_order(
    v0: AstView,
    v1: AstView,
    v2: AstView,
    v3: AstView,
    d1: AstDefinition,
    d2: AstDefinition,
    d3: AstDefinition,
)
    requires
        adds_definition(v0, v1, d1),
        adds_definition(v1, v2, d2),
        adds_definition(v2, v3, d3),
    ensures
        v3.definitions == v0.definitions + seq![d1, d2, d3],
        v3.definitions.len() == v0.definitions.len() + 3,
        v3.definitions[v0.definitions.len() as int] == d1,
        v3.definitions[v0.definitions.len() as int + 1] == d2,
        v3.definitions[v0.definitions.len() as int + 2] == d3,
{
    assert(v3.definitions =~= v0.definitions + seq![d1, d2, d3]);
}

/// Order preservation in general: recording any number of definitions, of
/// any kinds, appends exactly their index entries in call order. `views`
/// holds the document model before and after each of the `ds.len()`
/// recordings.
pub proof fn lemma_definition_order_seq(views: Seq<AstView>, ds: Seq<AstDefinition>)
    requires
        views.len() == ds.len() + 1,
        forall|i: int| 0 <= i < ds.len() ==> adds_definition(
            views[i],
            views[i + 1],
            #[trigger] ds[i],
        ),
    ensures
        views.last().definitions == views[0].definitions + ds,
        views.last().definitions.len() == views[0].definitions.len() + ds.len(),
        forall|i: int| 0 <= i < ds.len() ==> views.last().definitions[
            views[0].definitions.len() + i] == #[trigger] ds[i],
    decreases ds.len(),
{
    if ds.len() == 0 {
        assert(views.last().definitions =~= views[0].definitions + ds);
    } else {
        let vs = views.drop_last();
        assert forall|i: int| 0 <= i < ds.len() - 1 implies adds_definition(
            vs[i],
            vs[i + 1],
            #[trigger] ds.drop_last()[i],
        ) by {
            assert(vs[i] == views[i]);
            assert(vs[i + 1] == views[i + 1]);
            assert(ds.drop_last()[i] == ds[i]);
        }
        lemma_definition_order_seq(vs, ds.drop_last());
        assert(adds_definition(views[ds.len() - 1], views[ds.len() as int], ds[ds.len() - 1]));
        assert(vs.last() == views[ds.len() - 1]);
        assert(views.last().definitions =~= views[0].definitions + ds);
    }
}

} // verus!
