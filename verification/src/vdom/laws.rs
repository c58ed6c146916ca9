use vstd::prelude::*;

use crate::vdom::content::{
    assoc_get, attrs_wf, children_keyed, elem_eq, keyed_wf, opt_view, ElementContent,
};
use crate::vdom::diff::{
    spec_child_ops, spec_child_sources, spec_diff, spec_keyed_index, spec_match,
};
use crate::vdom::ops::{ChildSource, SpecOp};
use crate::vdom::patch::{spec_attr_ops, spec_attr_removes, spec_attr_sets};

verus! {

/// An operation that only re-inserts the existing children in their existing
/// order: it removes nothing, builds nothing fresh, and touches no attribute
/// or text.
pub open spec fn is_identity_rebuild(op: SpecOp) -> bool {
    match op {
        SpecOp::RebuildChildren { sources, .. } => forall|m: int|
            0 <= m < sources.len() ==> sources[m] == (ChildSource::Reuse { old_index: m as usize }),
        _ => false,
    }
}

/// Every operation of `s` is an identity rebuild.
pub open spec fn all_identity(s: Seq<SpecOp>) -> bool {
    forall|n: int| 0 <= n < s.len() ==> is_identity_rebuild(#[trigger] s[n])
}

/// In an attribute list with distinct names, looking up the i-th name gives
/// the i-th value.
pub proof fn lemma_assoc_get_at(s: Seq<(String, String)>, i: int)
    requires
        attrs_wf(s),
        0 <= i < s.len(),
    ensures
        assoc_get(s, s[i].0@) == Some(s[i].1@),
    decreases s.len(),
{
    if i > 0 {
        assert forall|a: int, b: int| 0 <= a < b < s.drop_first().len() implies s.drop_first()[a].0@
            != s.drop_first()[b].0@ by {
            assert(s.drop_first()[a] == s[a + 1]);
            assert(s.drop_first()[b] == s[b + 1]);
        }
        lemma_assoc_get_at(s.drop_first(), i - 1);
        assert(s.drop_first()[i - 1] == s[i]);
    }
}

/// If every old attribute name is still present in the new list, the diff
/// removes nothing.
pub proof fn lemma_attr_removes_empty(
    old: Seq<(String, String)>,
    new: Seq<(String, String)>,
    path: Seq<usize>,
)
    requires
        forall|i: int| 0 <= i < old.len() ==> assoc_get(new, (#[trigger] old[i]).0@) is Some,
    ensures
        spec_attr_removes(old, new, path) =~= Seq::<SpecOp>::empty(),
    decreases old.len(),
{
    if old.len() > 0 {
        assert forall|i: int| 0 <= i < old.drop_last().len() implies assoc_get(
            new,
            (#[trigger] old.drop_last()[i]).0@,
        ) is Some by {
            assert(old.drop_last()[i] == old[i]);
        }
        lemma_attr_removes_empty(old.drop_last(), new, path);
        assert(old.last() == old[old.len() - 1]);
    }
}

/// If every new attribute already has its value under the old list, the diff
/// writes nothing.
pub proof fn lemma_attr_sets_empty(
    old: Seq<(String, String)>,
    new: Seq<(String, String)>,
    path: Seq<usize>,
)
    requires
        forall|i: int|
            0 <= i < new.len() ==> assoc_get(old, (#[trigger] new[i]).0@) == Some(new[i].1@),
    ensures
        spec_attr_sets(old, new, path) =~= Seq::<SpecOp>::empty(),
    decreases new.len(),
{
    if new.len() > 0 {
        assert forall|i: int| 0 <= i < new.drop_last().len() implies assoc_get(
            old,
            (#[trigger] new.drop_last()[i]).0@,
        ) == Some(new.drop_last()[i].1@) by {
            assert(new.drop_last()[i] == new[i]);
        }
        lemma_attr_sets_empty(old, new.drop_last(), path);
        assert(new.last() == new[new.len() - 1]);
    }
}

/// In a fully keyed child list with distinct keys, the keyed matcher finds
/// the i-th child under its own key.
pub proof fn lemma_keyed_index_at(cs: Seq<ElementContent>, i: int)
    requires
        children_keyed(cs),
        cs.len() <= usize::MAX,
        0 <= i < cs.len(),
    ensures
        spec_keyed_index(cs, cs[i].key->0@) == Some(i as usize),
    decreases cs.len(),
{
    if i < cs.len() - 1 {
        assert(cs.last() == cs[cs.len() - 1]);
        assert(cs[i].key->0@ != cs[cs.len() - 1].key->0@);
        assert forall|a: int, b: int| 0 <= a < b < cs.drop_last().len() implies (#[trigger] cs
            .drop_last()[a]).key->0@ != (#[trigger] cs.drop_last()[b]).key->0@ by {
            assert(cs.drop_last()[a] == cs[a]);
            assert(cs.drop_last()[b] == cs[b]);
        }
        assert forall|a: int| 0 <= a < cs.drop_last().len() implies (#[trigger] cs.drop_last()[a]
            .key) is Some by {
            assert(cs.drop_last()[a] == cs[a]);
        }
        lemma_keyed_index_at(cs.drop_last(), i);
        assert(cs.drop_last()[i] == cs[i]);
    } else {
        assert(cs.last() == cs[i]);
    }
}

/// Reconciling a fully keyed child list against an equal one reuses every
/// child at its own position.
pub proof fn lemma_sources_identity(a_cs: Seq<ElementContent>, b_cs: Seq<ElementContent>, n: int)
    requires
        children_keyed(a_cs),
        a_cs.len() <= usize::MAX,
        b_cs.len() == a_cs.len(),
        forall|i: int| 0 <= i < a_cs.len() ==> elem_eq(#[trigger] a_cs[i], b_cs[i]),
        0 <= n <= b_cs.len(),
    ensures
        spec_child_sources(a_cs, b_cs.take(n)).len() == n,
        forall|m: int|
            0 <= m < n ==> spec_child_sources(a_cs, b_cs.take(n))[m] == (ChildSource::Reuse {
                old_index: m as usize,
            }),
    decreases n,
{
    if n > 0 {
        lemma_sources_identity(a_cs, b_cs, n - 1);
        assert(b_cs.take(n).drop_last() =~= b_cs.take(n - 1));
        assert(b_cs.take(n).last() == b_cs[n - 1]);
        assert(elem_eq(a_cs[n - 1], b_cs[n - 1]));
        assert(a_cs[n - 1].key is Some);
        assert(b_cs[n - 1].key->0@ == a_cs[n - 1].key->0@);
        lemma_keyed_index_at(a_cs, n - 1);
        assert(spec_match(a_cs, b_cs[n - 1]) == Some((n - 1) as usize));
    }
}

/// Child reconciliation of equal, fully keyed lists emits only identity
/// rebuilds (from the in-place diffs of the matched children).
pub proof fn lemma_child_ops_identity(
    a_cs: Seq<ElementContent>,
    b_cs: Seq<ElementContent>,
    path: Seq<usize>,
    new_path: Seq<usize>,
    n: int,
)
    requires
        children_keyed(a_cs),
        a_cs.len() <= usize::MAX,
        forall|i: int| 0 <= i < a_cs.len() ==> keyed_wf(#[trigger] a_cs[i]),
        b_cs.len() == a_cs.len(),
        forall|i: int| 0 <= i < a_cs.len() ==> elem_eq(#[trigger] a_cs[i], b_cs[i]),
        0 <= n <= b_cs.len(),
    ensures
        all_identity(spec_child_ops(a_cs, b_cs, path, new_path, n)),
    decreases a_cs, 0int, n,
{
    if n > 0 {
        lemma_child_ops_identity(a_cs, b_cs, path, new_path, n - 1);
        assert(elem_eq(a_cs[n - 1], b_cs[n - 1]));
        assert(a_cs[n - 1].key is Some);
        assert(b_cs[n - 1].key->0@ == a_cs[n - 1].key->0@);
        lemma_keyed_index_at(a_cs, n - 1);
        assert(spec_match(a_cs, b_cs[n - 1]) == Some((n - 1) as usize));
        lemma_diff_equal(
            a_cs[n - 1],
            b_cs[n - 1],
            path.push((n - 1) as usize),
            new_path.push((n - 1) as usize),
        );
        let x = spec_child_ops(a_cs, b_cs, path, new_path, n - 1);
        let y = spec_diff(
            a_cs[n - 1],
            b_cs[n - 1],
            path.push((n - 1) as usize),
            new_path.push((n - 1) as usize),
        );
        let s = spec_child_ops(a_cs, b_cs, path, new_path, n);
        assert(s =~= x + y);
        assert forall|k: int| 0 <= k < s.len() implies is_identity_rebuild(#[trigger] s[k]) by {
            if k < x.len() {
                assert(s[k] == x[k]);
            } else {
                assert(s[k] == y[k - x.len()]);
            }
        }
    }
}

/// The operations that do change the document: everything but identity
/// rebuilds.
pub open spec fn non_identity() -> spec_fn(SpecOp) -> bool {
    |op: SpecOp| !is_identity_rebuild(op)
}

/// A sequence of identity rebuilds holds no document-changing operation.
pub proof fn lemma_filter_all_identity(s: Seq<SpecOp>)
    requires
        all_identity(s),
    ensures
        s.filter(non_identity()) =~= Seq::<SpecOp>::empty(),
    decreases s.len(),
{
    reveal(Seq::filter);
    if s.len() > 0 {
        assert(all_identity(s.drop_last()));
        lemma_filter_all_identity(s.drop_last());
        assert(is_identity_rebuild(s.last()));
    }
}

/// If only the value of the `m`-th attribute changed, the attribute diff
/// writes exactly that attribute and nothing else.
pub proof fn lemma_attr_sets_single(
    old: Seq<(String, String)>,
    new: Seq<(String, String)>,
    path: Seq<usize>,
    m: int,
    n: int,
)
    requires
        attrs_wf(old),
        old.len() == new.len(),
        forall|i: int| 0 <= i < old.len() ==> (#[trigger] old[i]).0@ == new[i].0@,
        forall|i: int| 0 <= i < old.len() && i != m ==> (#[trigger] old[i]).1@ == new[i].1@,
        0 <= m < new.len(),
        old[m].1@ != new[m].1@,
        0 <= n <= new.len(),
    ensures
        spec_attr_sets(old, new.take(n), path) =~= if n <= m {
            Seq::<SpecOp>::empty()
        } else {
            seq![SpecOp::SetAttribute { path: path, name: new[m].0@, value: new[m].1@ }]
        },
    decreases n,
{
    if n > 0 {
        lemma_attr_sets_single(old, new, path, m, n - 1);
        assert(new.take(n).drop_last() =~= new.take(n - 1));
        assert(new.take(n).last() == new[n - 1]);
        lemma_assoc_get_at(old, n - 1);
        assert(old[n - 1].0@ == new[n - 1].0@);
        if n - 1 == m {
            assert(assoc_get(old, new[m].0@) == Some(old[m].1@));
            assert(assoc_get(old, new[m].0@) != Some(new[m].1@));
        } else {
            assert(assoc_get(old, new[n - 1].0@) == Some(new[n - 1].1@));
        }
    }
}

/// Changing only one attribute value updates exactly that attribute on the
/// live node: besides identity rebuilds, the whole diff performs one
/// `SetAttribute` of the changed attribute — sibling attributes, the text and
/// every descendant node are untouched.
pub proof fn lemma_diff_single_attribute(
    a: ElementContent,
    b: ElementContent,
    path: Seq<usize>,
    new_path: Seq<usize>,
    m: int,
)
    requires
        keyed_wf(a),
        a.tag@ == b.tag@,
        opt_view(a.text) == opt_view(b.text),
        a.children@.len() == b.children@.len(),
        forall|i: int| 0 <= i < a.children@.len() ==> elem_eq(#[trigger] a.children@[i], b.children@[i]),
        a.attributes@.len() == b.attributes@.len(),
        forall|i: int|
            0 <= i < a.attributes@.len() ==> (#[trigger] a.attributes@[i]).0@
                == b.attributes@[i].0@,
        forall|i: int|
            0 <= i < a.attributes@.len() && i != m ==> (#[trigger] a.attributes@[i]).1@
                == b.attributes@[i].1@,
        0 <= m < a.attributes@.len(),
        a.attributes@[m].1@ != b.attributes@[m].1@,
    ensures
        spec_diff(a, b, path, new_path).filter(non_identity()) =~= seq![
            SpecOp::SetAttribute {
                path: path,
                name: b.attributes@[m].0@,
                value: b.attributes@[m].1@,
            },
        ],
{
    broadcast use vstd::std_specs::vec::axiom_spec_len;
    broadcast use vstd::seq_lib::group_seq_lib_default;

    assert(vstd::std_specs::vec::spec_vec_len(&a.children) == a.children@.len());
    // no attribute is removed
    assert forall|i: int, j: int| 0 <= i < j < b.attributes@.len() implies b.attributes@[i].0@
        != b.attributes@[j].0@ by {
        assert(a.attributes@[i].0@ == b.attributes@[i].0@);
        assert(a.attributes@[j].0@ == b.attributes@[j].0@);
    }
    assert forall|i: int| 0 <= i < a.attributes@.len() implies assoc_get(
        b.attributes@,
        (#[trigger] a.attributes@[i]).0@,
    ) is Some by {
        lemma_assoc_get_at(b.attributes@, i);
        assert(b.attributes@[i].0@ == a.attributes@[i].0@);
    }
    lemma_attr_removes_empty(a.attributes@, b.attributes@, path);
    // exactly the changed attribute is written
    lemma_attr_sets_single(a.attributes@, b.attributes@, path, m, b.attributes@.len() as int);
    assert(b.attributes@.take(b.attributes@.len() as int) =~= b.attributes@);
    let set_op = SpecOp::SetAttribute {
        path: path,
        name: b.attributes@[m].0@,
        value: b.attributes@[m].1@,
    };
    assert(spec_attr_ops(a.attributes@, b.attributes@, path) =~= seq![set_op]);
    // the children diff in place without operations and are reused in order
    lemma_child_ops_identity(a.children@, b.children@, path, new_path, b.children@.len() as int);
    lemma_sources_identity(a.children@, b.children@, b.children@.len() as int);
    assert(b.children@.take(b.children@.len() as int) =~= b.children@);
    let child_ops = spec_child_ops(
        a.children@,
        b.children@,
        path,
        new_path,
        b.children@.len() as int,
    );
    let rebuild = SpecOp::RebuildChildren {
        path: path,
        new_path: new_path,
        sources: spec_child_sources(a.children@, b.children@),
    };
    let s = spec_diff(a, b, path, new_path);
    assert(s =~= seq![set_op] + child_ops + seq![rebuild]);
    // only the one write survives the filter
    assert(is_identity_rebuild(rebuild));
    assert(all_identity(seq![rebuild])) by {
        assert(seq![rebuild][0] == rebuild);
    }
    lemma_filter_all_identity(child_ops);
    lemma_filter_all_identity(seq![rebuild]);
    assert(seq![set_op].filter(non_identity()) =~= seq![set_op]) by {
        reveal_with_fuel(Seq::filter, 2);
        assert(seq![set_op].drop_last() =~= Seq::<SpecOp>::empty());
        assert(non_identity()(set_op));
    }
    assert(s.filter(non_identity()) =~= seq![set_op]) by {
        Seq::filter_distributes_over_add(seq![set_op] + child_ops, seq![rebuild], non_identity());
        Seq::filter_distributes_over_add(seq![set_op], child_ops, non_identity());
        assert((seq![set_op] + child_ops + seq![rebuild]).filter(non_identity()) =~= seq![set_op]);
    }
}

/// Reconciling two structurally equal trees is a no-op on the live document:
/// no attribute is written or removed, no text is written, no node is
/// replaced, removed or built fresh; the only operations are re-insertions of
/// the existing children in their existing order, which preserve every node's
/// identity and state.
pub proof fn lemma_diff_equal(
    a: ElementContent,
    b: ElementContent,
    path: Seq<usize>,
    new_path: Seq<usize>,
)
    requires
        keyed_wf(a),
        elem_eq(a, b),
    ensures
        all_identity(spec_diff(a, b, path, new_path)),
    decreases a, 1int, 0int,
{
    broadcast use vstd::std_specs::vec::axiom_spec_len;

    assert(vstd::std_specs::vec::spec_vec_len(&a.children) == a.children@.len());
    assert(a.children@.len() <= usize::MAX);
    assert(a.tag@ == b.tag@);
    // the attribute diff does nothing
    assert forall|i: int, j: int| 0 <= i < j < b.attributes@.len() implies b.attributes@[i].0@
        != b.attributes@[j].0@ by {
        assert(a.attributes@[i].0@ == b.attributes@[i].0@);
        assert(a.attributes@[j].0@ == b.attributes@[j].0@);
    }
    assert forall|i: int| 0 <= i < a.attributes@.len() implies assoc_get(
        b.attributes@,
        (#[trigger] a.attributes@[i]).0@,
    ) is Some by {
        lemma_assoc_get_at(b.attributes@, i);
        assert(b.attributes@[i].0@ == a.attributes@[i].0@);
    }
    lemma_attr_removes_empty(a.attributes@, b.attributes@, path);
    assert forall|i: int| 0 <= i < b.attributes@.len() implies assoc_get(
        a.attributes@,
        (#[trigger] b.attributes@[i]).0@,
    ) == Some(b.attributes@[i].1@) by {
        lemma_assoc_get_at(a.attributes@, i);
        assert(b.attributes@[i].0@ == a.attributes@[i].0@);
        assert(b.attributes@[i].1@ == a.attributes@[i].1@);
    }
    lemma_attr_sets_empty(a.attributes@, b.attributes@, path);
    // the text is unchanged
    assert(opt_view(a.text) == opt_view(b.text));
    // the children diff in place without operations and are reused in order
    lemma_child_ops_identity(a.children@, b.children@, path, new_path, b.children@.len() as int);
    lemma_sources_identity(a.children@, b.children@, b.children@.len() as int);
    assert(b.children@.take(b.children@.len() as int) =~= b.children@);
    let child_ops = spec_child_ops(
        a.children@,
        b.children@,
        path,
        new_path,
        b.children@.len() as int,
    );
    let rebuild = SpecOp::RebuildChildren {
        path: path,
        new_path: new_path,
        sources: spec_child_sources(a.children@, b.children@),
    };
    let s = spec_diff(a, b, path, new_path);
    assert(s =~= child_ops + seq![rebuild]);
    assert(is_identity_rebuild(rebuild));
    assert forall|k: int| 0 <= k < s.len() implies is_identity_rebuild(#[trigger] s[k]) by {
        if k < child_ops.len() {
            assert(s[k] == child_ops[k]);
        } else {
            assert(s[k] == rebuild);
        }
    }
}

} // verus!
