use vstd::prelude::*;

verus! {

/// Where one entry of a rebuilt child list comes from: an existing live child
/// (kept with its identity and native state) or a fresh subtree built from the
/// new declarative tree.
#[derive(Debug, PartialEq, Eq, Structural)]
pub enum ChildSource {
    Reuse { old_index: usize },
    Fresh { new_index: usize },
}

/// One mutation of the live document. A live node is addressed by `path`,
/// its child indices from the document body: the path `[0, 2]` is the third
/// child of the first body child. Where an operation builds new content, a
/// second address `new_path` points into the new declarative tree — a keyed
/// child may sit at another position there than its live node does.
/// `Replace` discards the live node at `path` and builds the subtree found
/// at `new_path` of the new tree; `RebuildChildren` re-inserts the children
/// of the live node at `path` in the given order, building each fresh entry
/// from the children of the new-tree node at `new_path` and dropping every
/// live child that no entry reuses.
#[derive(Debug)]
pub enum DomOp {
    Replace { path: Vec<usize>, new_path: Vec<usize> },
    SetAttribute { path: Vec<usize>, name: String, value: String },
    RemoveAttribute { path: Vec<usize>, name: String },
    SetText { path: Vec<usize>, text: Option<String> },
    RebuildChildren { path: Vec<usize>, new_path: Vec<usize>, sources: Vec<ChildSource> },
}

/// The mathematical value of a `DomOp`.
pub enum SpecOp {
    Replace { path: Seq<usize>, new_path: Seq<usize> },
    SetAttribute { path: Seq<usize>, name: Seq<char>, value: Seq<char> },
    RemoveAttribute { path: Seq<usize>, name: Seq<char> },
    SetText { path: Seq<usize>, text: Option<Seq<char>> },
    RebuildChildren { path: Seq<usize>, new_path: Seq<usize>, sources: Seq<ChildSource> },
}

pub open spec fn op_view(op: DomOp) -> SpecOp {
    match op {
        DomOp::Replace { path, new_path } => SpecOp::Replace {
            path: path@,
            new_path: new_path@,
        },
        DomOp::SetAttribute { path, name, value } => SpecOp::SetAttribute {
            path: path@,
            name: name@,
            value: value@,
        },
        DomOp::RemoveAttribute { path, name } => SpecOp::RemoveAttribute {
            path: path@,
            name: name@,
        },
        DomOp::SetText { path, text } => SpecOp::SetText {
            path: path@,
            text: crate::vdom::content::opt_view(text),
        },
        DomOp::RebuildChildren { path, new_path, sources } => SpecOp::RebuildChildren {
            path: path@,
            new_path: new_path@,
            sources: sources@,
        },
    }
}

/// The mathematical value of a list of operations.
pub open spec fn ops_view(s: Seq<DomOp>) -> Seq<SpecOp> {
    s.map_values(|op: DomOp| op_view(op))
}

/// A copy of a node path with one more step appended.
pub fn path_child(path: &Vec<usize>, step: usize) -> (r: Vec<usize>)
    ensures
        r@ =~= path@.push(step),
{
    let mut r: Vec<usize> = Vec::new();
    let n: usize = path.len();
    let mut i: usize = 0;
    while i < n
        invariant
            n == path@.len(),
            i <= n,
            r@ =~= path@.take(i as int),
        decreases n - i,
    {
        r.push(path[i]);
        i = i + 1;
    }
    proof {
        assert(path@.take(n as int) =~= path@);
    }
    r.push(step);
    r
}

} // verus!
