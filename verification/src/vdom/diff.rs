use vstd::prelude::*;

use crate::vdom::content::{opt_str_eq, opt_view, ElementContent};
use crate::vdom::ops::{ops_view, path_child, ChildSource, DomOp, SpecOp};
use crate::vdom::patch::{path_copy, spec_attr_ops, Patcher};

verus! {

/// The index the keyed matcher picks for key `k` among old children: the last
/// sibling carrying that key, or nothing.
pub open spec fn spec_keyed_index(cs: Seq<ElementContent>, k: Seq<char>) -> Option<usize>
    decreases cs.len(),
{
    if cs.len() == 0 {
        None
    } else {
        match cs.last().key {
            Some(k2) => if k2@ == k {
                Some((cs.len() - 1) as usize)
            } else {
                spec_keyed_index(cs.drop_last(), k)
            },
            None => spec_keyed_index(cs.drop_last(), k),
        }
    }
}

/// The old child a new child is matched to: keyed matching only.
pub open spec fn spec_match(old_cs: Seq<ElementContent>, c: ElementContent) -> Option<usize> {
    match c.key {
        Some(k) => spec_keyed_index(old_cs, k@),
        None => None,
    }
}

/// Where each entry of the rebuilt child list comes from: new children whose
/// key matches an old child reuse that child's live node; all others are built
/// fresh. Old children no entry reuses are dropped by the rebuild.
pub open spec fn spec_child_sources(
    old_cs: Seq<ElementContent>,
    new_cs: Seq<ElementContent>,
) -> Seq<ChildSource>
    decreases new_cs.len(),
{
    if new_cs.len() == 0 {
        Seq::empty()
    } else {
        spec_child_sources(old_cs, new_cs.drop_last()) + seq![
            match spec_match(old_cs, new_cs.last()) {
                Some(j) => ChildSource::Reuse { old_index: j },
                None => ChildSource::Fresh { new_index: (new_cs.len() - 1) as usize },
            },
        ]
    }
}

/// The operations child reconciliation emits for the first `n` new children:
/// each matched child is diffed in place against the old child its key picked.
pub open spec fn spec_child_ops(
    old_cs: Seq<ElementContent>,
    new_cs: Seq<ElementContent>,
    path: Seq<usize>,
    new_path: Seq<usize>,
    n: int,
) -> Seq<SpecOp>
    decreases new_cs, n,
{
    if n <= 0 || n > new_cs.len() {
        Seq::empty()
    } else {
        spec_child_ops(old_cs, new_cs, path, new_path, n - 1) + match spec_match(
            old_cs,
            new_cs[n - 1],
        ) {
            Some(j) => if j < old_cs.len() {
                spec_diff(
                    old_cs[j as int],
                    new_cs[n - 1],
                    path.push(j),
                    new_path.push((n - 1) as usize),
                )
            } else {
                Seq::empty()
            },
            None => Seq::empty(),
        }
    }
}

/// Everything reconciling `old` against `new` at `path` does to the live
/// document. A tag change replaces the whole subtree. Otherwise the
/// attributes are diffed, changed text is written, each new child whose key
/// matches an old child is diffed in place against it, and the child list is
/// rebuilt in new-tree order from reused and fresh nodes.
pub open spec fn spec_diff(
    old: ElementContent,
    new: ElementContent,
    path: Seq<usize>,
    new_path: Seq<usize>,
) -> Seq<SpecOp>
    decreases new, 1int,
{
    if old.tag@ != new.tag@ {
        seq![SpecOp::Replace { path: path, new_path: new_path }]
    } else {
        spec_attr_ops(old.attributes@, new.attributes@, path) + (if opt_view(old.text) == opt_view(
            new.text,
        ) {
            Seq::empty()
        } else {
            seq![SpecOp::SetText { path: path, text: opt_view(new.text) }]
        }) + spec_child_ops(
            old.children@,
            new.children@,
            path,
            new_path,
            new.children@.len() as int,
        ) + seq![
            SpecOp::RebuildChildren {
                path: path,
                new_path: new_path,
                sources: spec_child_sources(old.children@, new.children@),
            },
        ]
    }
}

/// A matched index is an index into the old children.
pub proof fn lemma_keyed_index_bound(cs: Seq<ElementContent>, k: Seq<char>)
    ensures
        match spec_keyed_index(cs, k) {
            Some(j) => j < cs.len(),
            None => true,
        },
    decreases cs.len(),
{
    if cs.len() > 0 {
        lemma_keyed_index_bound(cs.drop_last(), k);
    }
}

/// Computes the minimal operation list turning the live rendering of an old
/// declarative tree into a rendering of a new one.
pub struct Differ {
    patcher: Patcher,
}

impl Differ {
    pub fn new() -> (r: Differ) {
        Differ { patcher: Patcher::new() }
    }

    /// The last old child carrying key `k`, as the keyed matcher picks it.
    fn keyed_index(cs: &Vec<ElementContent>, k: &String) -> (r: Option<usize>)
        ensures
            r == spec_keyed_index(cs@, k@),
            match r {
                Some(j) => j < cs@.len(),
                None => true,
            },
    {
        proof {
            lemma_keyed_index_bound(cs@, k@);
        }
        let mut i: usize = cs.len();
        proof {
            assert(cs@.take(cs@.len() as int) =~= cs@);
        }
        while i > 0
            invariant
                i <= cs@.len(),
                spec_keyed_index(cs@, k@) == spec_keyed_index(cs@.take(i as int), k@),
            decreases i,
        {
            i = i - 1;
            proof {
                assert(cs@.take(i as int + 1).drop_last() =~= cs@.take(i as int));
                assert(cs@.take(i as int + 1).last() == cs@[i as int]);
            }
            match &cs[i].key {
                Some(kk) => {
                    if *kk == *k {
                        return Some(i);
                    }
                },
                None => (),
            }
        }
        proof {
            assert(cs@.take(0) =~= Seq::<ElementContent>::empty());
        }
        None
    }

    /// Appends to `ops` exactly the operations of `spec_diff(*old, *new, path@)`.
    pub fn diff_and_patch(
        &self,
        old_v: &ElementContent,
        new_v: &ElementContent,
        path: &Vec<usize>,
        new_path: &Vec<usize>,
        ops: &mut Vec<DomOp>,
    )
        ensures
            ops_view(final(ops)@) =~= ops_view(old(ops)@) + spec_diff(
                *old_v,
                *new_v,
                path@,
                new_path@,
            ),
        decreases *new_v, 1int,
    {
        let ghost ops0: Seq<DomOp> = ops@;
        if !(old_v.tag == new_v.tag) {
            ops.push(DomOp::Replace { path: path_copy(path), new_path: path_copy(new_path) });
            proof {
                assert(ops_view(ops@) =~= ops_view(ops0) + spec_diff(
                    *old_v,
                    *new_v,
                    path@,
                    new_path@,
                ));
            }
        } else {
            self.patcher.patch_attributes(&old_v.attributes, &new_v.attributes, path, ops);
            let ghost t_ops: Seq<SpecOp> = if opt_view(old_v.text) == opt_view(new_v.text) {
                Seq::empty()
            } else {
                seq![SpecOp::SetText { path: path@, text: opt_view(new_v.text) }]
            };
            if !opt_str_eq(&old_v.text, &new_v.text) {
                let text: Option<String> = match &new_v.text {
                    Some(t) => Some(t.clone()),
                    None => None,
                };
                ops.push(DomOp::SetText { path: path_copy(path), text });
            }
            proof {
                assert(ops_view(ops@) =~= ops_view(ops0) + spec_attr_ops(
                    old_v.attributes@,
                    new_v.attributes@,
                    path@,
                ) + t_ops);
            }
            self.reconcile_children(&old_v.children, &new_v.children, path, new_path, ops);
            proof {
                assert(ops_view(ops@) =~= ops_view(ops0) + spec_attr_ops(
                    old_v.attributes@,
                    new_v.attributes@,
                    path@,
                ) + t_ops + spec_child_ops(
                    old_v.children@,
                    new_v.children@,
                    path@,
                    new_path@,
                    new_v.children@.len() as int,
                ) + seq![
                    SpecOp::RebuildChildren {
                        path: path@,
                        new_path: new_path@,
                        sources: spec_child_sources(old_v.children@, new_v.children@),
                    },
                ]);
                assert(ops_view(ops@) =~= ops_view(ops0) + spec_diff(
                    *old_v,
                    *new_v,
                    path@,
                    new_path@,
                ));
            }
        }
    }

    /// Keyed child reconciliation: diffs matched children in place, then
    /// rebuilds the child list in new-tree order.
    fn reconcile_children(
        &self,
        old_cs: &Vec<ElementContent>,
        new_cs: &Vec<ElementContent>,
        path: &Vec<usize>,
        new_path: &Vec<usize>,
        ops: &mut Vec<DomOp>,
    )
        ensures
            ops_view(final(ops)@) =~= ops_view(old(ops)@) + spec_child_ops(
                old_cs@,
                new_cs@,
                path@,
                new_path@,
                new_cs@.len() as int,
            ) + seq![
                SpecOp::RebuildChildren {
                    path: path@,
                    new_path: new_path@,
                    sources: spec_child_sources(old_cs@, new_cs@),
                },
            ],
        decreases *new_cs, 0int,
    {
        let ghost ops0: Seq<DomOp> = ops@;
        let n: usize = new_cs.len();
        let mut sources: Vec<ChildSource> = Vec::new();
        let mut i: usize = 0;
        proof {
            assert(new_cs@.take(0) =~= Seq::<ElementContent>::empty());
        }
        while i < n
            invariant
                n == new_cs@.len(),
                i <= n,
                sources@ =~= spec_child_sources(old_cs@, new_cs@.take(i as int)),
                ops_view(ops@) =~= ops_view(ops0) + spec_child_ops(
                    old_cs@,
                    new_cs@,
                    path@,
                    new_path@,
                    i as int,
                ),
            decreases n - i,
        {
            proof {
                assert(new_cs@.take(i as int + 1).drop_last() =~= new_cs@.take(i as int));
                assert(new_cs@.take(i as int + 1).last() == new_cs@[i as int]);
            }
            let m: Option<usize> = match &new_cs[i].key {
                Some(k) => Self::keyed_index(old_cs, k),
                None => None,
            };
            match m {
                Some(j) => {
                    let child_path: Vec<usize> = path_child(path, j);
                    let child_new_path: Vec<usize> = path_child(new_path, i);
                    self.diff_and_patch(&old_cs[j], &new_cs[i], &child_path, &child_new_path, ops);
                    sources.push(ChildSource::Reuse { old_index: j });
                },
                None => {
                    sources.push(ChildSource::Fresh { new_index: i });
                },
            }
            i = i + 1;
        }
        proof {
            assert(new_cs@.take(n as int) =~= new_cs@);
        }
        ops.push(
            DomOp::RebuildChildren {
                path: path_copy(path),
                new_path: path_copy(new_path),
                sources,
            },
        );
    }
}

} // verus!
