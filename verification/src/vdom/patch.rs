use vstd::prelude::*;

use crate::vdom::content::assoc_get;
use crate::vdom::ops::{op_view, ops_view, DomOp, SpecOp};

verus! {

/// The removals an attribute diff performs: one `RemoveAttribute` for each
/// attribute of the old list whose name is absent from the new list, in old
/// list order.
pub open spec fn spec_attr_removes(
    old: Seq<(String, String)>,
    new: Seq<(String, String)>,
    path: Seq<usize>,
) -> Seq<SpecOp>
    decreases old.len(),
{
    if old.len() == 0 {
        Seq::empty()
    } else {
        spec_attr_removes(old.drop_last(), new, path) + if assoc_get(
            new,
            old.last().0@,
        ) is None {
            seq![SpecOp::RemoveAttribute { path: path, name: old.last().0@ }]
        } else {
            Seq::empty()
        }
    }
}

/// The writes an attribute diff performs: one `SetAttribute` for each
/// attribute of the new list whose value under the old list differs, in new
/// list order. Unchanged attributes are untouched.
pub open spec fn spec_attr_sets(
    old: Seq<(String, String)>,
    new: Seq<(String, String)>,
    path: Seq<usize>,
) -> Seq<SpecOp>
    decreases new.len(),
{
    if new.len() == 0 {
        Seq::empty()
    } else {
        spec_attr_sets(old, new.drop_last(), path) + if assoc_get(old, new.last().0@) == Some(
            new.last().1@,
        ) {
            Seq::empty()
        } else {
            seq![
                SpecOp::SetAttribute { path: path, name: new.last().0@, value: new.last().1@ },
            ]
        }
    }
}

/// Everything an attribute diff performs: removals, then writes.
pub open spec fn spec_attr_ops(
    old: Seq<(String, String)>,
    new: Seq<(String, String)>,
    path: Seq<usize>,
) -> Seq<SpecOp> {
    spec_attr_removes(old, new, path) + spec_attr_sets(old, new, path)
}

/// A copy of a node path.
pub fn path_copy(path: &Vec<usize>) -> (r: Vec<usize>)
    ensures
        r@ =~= path@,
{
    let mut r: Vec<usize> = Vec::new();
    let n: usize = path.len();
    let mut i: usize = 0;
    while i < n
        invariant
            n == path@.len(),
            i <= n,
            r@ =~= path@.take(i as int),
        decreases n - i,
    {
        r.push(path[i]);
        i = i + 1;
    }
    proof {
        assert(path@.take(n as int) =~= path@);
    }
    r
}

/// Diffs two attribute lists of one element into document operations.
pub struct Patcher {}

impl Patcher {
    pub fn new() -> (r: Patcher) {
        Patcher {  }
    }

    /// Appends to `ops` exactly the operations of `spec_attr_ops`: attributes
    /// present in the old list but absent from the new one are removed,
    /// attributes whose value changed are written, unchanged attributes are
    /// left alone.
    pub fn patch_attributes(
        &self,
        old_attrs: &Vec<(String, String)>,
        new_attrs: &Vec<(String, String)>,
        path: &Vec<usize>,
        ops: &mut Vec<DomOp>,
    )
        ensures
            ops_view(final(ops)@) =~= ops_view(old(ops)@) + spec_attr_ops(
                old_attrs@,
                new_attrs@,
                path@,
            ),
    {
        let ghost ops0: Seq<DomOp> = ops@;
        let n_old: usize = old_attrs.len();
        let mut i: usize = 0;
        proof {
            assert(old_attrs@.take(0) =~= Seq::<(String, String)>::empty());
        }
        while i < n_old
            invariant
                n_old == old_attrs@.len(),
                i <= n_old,
                ops_view(ops@) =~= ops_view(ops0) + spec_attr_removes(
                    old_attrs@.take(i as int),
                    new_attrs@,
                    path@,
                ),
            decreases n_old - i,
        {
            let ghost opsk: Seq<DomOp> = ops@;
            proof {
                assert(old_attrs@.take(i as int + 1).drop_last() =~= old_attrs@.take(i as int));
                assert(old_attrs@.take(i as int + 1).last() == old_attrs@[i as int]);
            }
            let key: &String = &old_attrs[i].0;
            match crate::vdom::content::attrs_get(new_attrs, key) {
                Some(_) => {
                    proof {
                        assert(spec_attr_removes(old_attrs@.take(i as int + 1), new_attrs@, path@)
                            =~= spec_attr_removes(old_attrs@.take(i as int), new_attrs@, path@));
                    }
                },
                None => {
                    ops.push(DomOp::RemoveAttribute { path: path_copy(path), name: key.clone() });
                    proof {
                        assert(spec_attr_removes(old_attrs@.take(i as int + 1), new_attrs@, path@)
                            =~= spec_attr_removes(old_attrs@.take(i as int), new_attrs@, path@)
                            + seq![
                                SpecOp::RemoveAttribute { path: path@, name: old_attrs@[i as int].0@ },
                            ]);
                        assert(ops_view(ops@) =~= ops_view(opsk).push(
                            SpecOp::RemoveAttribute { path: path@, name: old_attrs@[i as int].0@ },
                        ));
                    }
                },
            }
            i = i + 1;
        }
        proof {
            assert(old_attrs@.take(n_old as int) =~= old_attrs@);
            assert(new_attrs@.take(0) =~= Seq::<(String, String)>::empty());
        }
        let n_new: usize = new_attrs.len();
        let mut j: usize = 0;
        while j < n_new
            invariant
                n_new == new_attrs@.len(),
                j <= n_new,
                ops_view(ops@) =~= ops_view(ops0) + spec_attr_removes(
                    old_attrs@,
                    new_attrs@,
                    path@,
                ) + spec_attr_sets(old_attrs@, new_attrs@.take(j as int), path@),
            decreases n_new - j,
        {
            let ghost opsk: Seq<DomOp> = ops@;
            proof {
                assert(new_attrs@.take(j as int + 1).drop_last() =~= new_attrs@.take(j as int));
                assert(new_attrs@.take(j as int + 1).last() == new_attrs@[j as int]);
            }
            let key: &String = &new_attrs[j].0;
            let value: &String = &new_attrs[j].1;
            let unchanged: bool = match crate::vdom::content::attrs_get(old_attrs, key) {
                Some(v) => *v == *value,
                None => false,
            };
            if !unchanged {
                ops.push(
                    DomOp::SetAttribute {
                        path: path_copy(path),
                        name: key.clone(),
                        value: value.clone(),
                    },
                );
                proof {
                    assert(spec_attr_sets(old_attrs@, new_attrs@.take(j as int + 1), path@)
                        =~= spec_attr_sets(old_attrs@, new_attrs@.take(j as int), path@)
                        + seq![
                            SpecOp::SetAttribute {
                                path: path@,
                                name: new_attrs@[j as int].0@,
                                value: new_attrs@[j as int].1@,
                            },
                        ]);
                    assert(ops_view(ops@) =~= ops_view(opsk).push(
                        SpecOp::SetAttribute {
                            path: path@,
                            name: new_attrs@[j as int].0@,
                            value: new_attrs@[j as int].1@,
                        },
                    ));
                }
            } else {
                proof {
                    assert(spec_attr_sets(old_attrs@, new_attrs@.take(j as int + 1), path@)
                        =~= spec_attr_sets(old_attrs@, new_attrs@.take(j as int), path@));
                }
            }
            j = j + 1;
        }
        proof {
            assert(new_attrs@.take(n_new as int) =~= new_attrs@);
        }
    }
}

} // verus!
