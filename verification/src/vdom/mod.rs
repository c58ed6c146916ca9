pub mod content;
pub mod diff;
pub mod laws;
pub mod ops;
pub mod patch;
pub mod render;

pub use content::ElementContent;

use vstd::prelude::*;

use crate::vdom::content::elem_eq;
use crate::vdom::diff::{spec_diff, Differ};
use crate::vdom::ops::{ops_view, DomOp};
use crate::vdom::render::{spec_css_text, CssRules, DomRenderer};

verus! {

/// Everything one render instruction asks of the live document. `roots` is
/// the new declarative content; on a full render the document body is cleared
/// and every root is built fresh, otherwise `ops` transforms the live tree in
/// place (their new-tree addresses point into `roots`). `css_text`, when
/// present, replaces the well-known style element's content, and
/// `history_push`, when present, adds one history entry for that path.
/// `snapshot` is the candidate next snapshot — the first new root — and is
/// installed by `commit` only once the document update succeeded.
#[derive(Debug)]
pub struct RenderPlan {
    pub full: bool,
    pub roots: Vec<ElementContent>,
    pub ops: Vec<DomOp>,
    pub css_text: Option<String>,
    pub history_push: Option<String>,
    pub snapshot: Option<ElementContent>,
}

/// Owns the render snapshot: the single most recently applied root element,
/// the old tree of the next reconciliation.
pub struct VirtualDom {
    pub previous_vdom: Option<ElementContent>,
}

impl VirtualDom {
    /// A reconciler with no prior snapshot: the first instruction renders in
    /// full.
    pub fn new() -> (r: VirtualDom)
        ensures
            r.previous_vdom is None,
    {
        VirtualDom { previous_vdom: None }
    }

    /// The stored snapshot, the old tree of the next reconciliation.
    pub fn snapshot(&self) -> (r: &Option<ElementContent>)
        ensures
            r == &self.previous_vdom,
    {
        &self.previous_vdom
    }

    /// Turns one render instruction into a plan for the live document.
    ///
    /// A full render is selected exactly when there is no prior snapshot or
    /// the instruction does not hold exactly one root; otherwise the stored
    /// snapshot is diffed against the single new root. The first new root (if
    /// any) becomes the plan's candidate snapshot; the stored snapshot is
    /// untouched until `commit`.
    pub fn render_page(
        &self,
        new_content: Vec<ElementContent>,
        path_opt: Option<String>,
        css_rules_opt: Option<CssRules>,
        current_path: &String,
    ) -> (r: RenderPlan)
        ensures
            r.full == (self.previous_vdom is None || new_content@.len() != 1),
            r.full ==> r.ops@.len() == 0,
            !r.full ==> match self.previous_vdom {
                Some(prev) => ops_view(r.ops@) =~= spec_diff(
                    prev,
                    new_content@[0],
                    seq![0usize],
                    seq![0usize],
                ),
                None => false,
            },
            new_content@.len() == 0 ==> r.snapshot is None,
            new_content@.len() > 0 ==> match r.snapshot {
                Some(c) => elem_eq(c, new_content@[0]),
                None => false,
            },
            r.roots == new_content,
            match css_rules_opt {
                Some(rules) => match r.css_text {
                    Some(t) => t@ =~= spec_css_text(rules@),
                    None => false,
                },
                None => r.css_text is None,
            },
            match path_opt {
                Some(p) => if p@ != current_path@ {
                    r.history_push == Some(p)
                } else {
                    r.history_push is None
                },
                None => r.history_push is None,
            },
    {
        let renderer = DomRenderer::new();
        let differ = Differ::new();

        let full: bool = self.previous_vdom.is_none() || new_content.len() != 1;
        let mut ops: Vec<DomOp> = Vec::new();
        if !full {
            match &self.previous_vdom {
                Some(prev) => {
                    let mut root_path: Vec<usize> = Vec::new();
                    root_path.push(0);
                    proof {
                        assert(root_path@ =~= seq![0usize]);
                    }
                    differ.diff_and_patch(prev, &new_content[0], &root_path, &root_path, &mut ops);
                },
                None => (),
            }
        }
        let snapshot: Option<ElementContent> = if new_content.len() > 0 {
            Some(new_content[0].deep_clone())
        } else {
            None
        };

        let css_text: Option<String> = match &css_rules_opt {
            Some(rules) => Some(renderer.apply_css_rules(rules)),
            None => None,
        };
        let history_push: Option<String> = match path_opt {
            Some(p) => if !(p == *current_path) {
                Some(p)
            } else {
                None
            },
            None => None,
        };

        RenderPlan { full, roots: new_content, ops, css_text, history_push, snapshot }
    }

    /// Installs a plan's candidate snapshot. The caller invokes this only
    /// after the document update succeeded: the snapshot is mutated only
    /// then, so a failed update leaves the old tree in place for the next
    /// reconciliation.
    pub fn commit(&mut self, plan: &RenderPlan)
        ensures
            match plan.snapshot {
                Some(c) => match final(self).previous_vdom {
                    Some(p) => elem_eq(p, c),
                    None => false,
                },
                None => final(self).previous_vdom is None,
            },
    {
        self.previous_vdom = match &plan.snapshot {
            Some(c) => Some(c.deep_clone()),
            None => None,
        };
    }
}

} // verus!
