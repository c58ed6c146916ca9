use vstd::prelude::*;

verus! {

/// One node of the declarative UI tree pushed by the server.
///
/// `attributes` is an association list from attribute name to value; the
/// element is well formed when its keys are distinct, so the list denotes an
/// unordered mapping. `key` is a stable identity used only among siblings.
#[derive(Debug)]
pub struct ElementContent {
    pub tag: String,
    pub attributes: Vec<(String, String)>,
    pub text: Option<String>,
    pub children: Vec<ElementContent>,
    pub key: Option<String>,
}

/// The view of an optional string.
pub open spec fn opt_view(o: Option<String>) -> Option<Seq<char>> {
    match o {
        Some(s) => Some(s@),
        None => None,
    }
}

/// First-match lookup in an attribute list, the list's meaning as a partial map.
pub open spec fn assoc_get(s: Seq<(String, String)>, k: Seq<char>) -> Option<Seq<char>>
    decreases s.len(),
{
    if s.len() == 0 {
        None
    } else if s[0].0@ == k {
        Some(s[0].1@)
    } else {
        assoc_get(s.drop_first(), k)
    }
}

/// Attribute keys are pairwise distinct.
pub open spec fn attrs_wf(s: Seq<(String, String)>) -> bool {
    forall|i: int, j: int| 0 <= i < j < s.len() ==> s[i].0@ != s[j].0@
}

/// Pointwise equality of two attribute lists.
pub open spec fn attrs_eq(a: Seq<(String, String)>, b: Seq<(String, String)>) -> bool {
    a.len() == b.len() && forall|i: int|
        0 <= i < a.len() ==> a[i].0@ == b[i].0@ && a[i].1@ == b[i].1@
}

/// Every child carries a key and sibling keys are pairwise distinct.
pub open spec fn children_keyed(cs: Seq<ElementContent>) -> bool {
    &&& forall|i: int| 0 <= i < cs.len() ==> (#[trigger] cs[i].key) is Some
    &&& forall|i: int, j: int|
        0 <= i < j < cs.len() ==> (#[trigger] cs[i].key)->0@ != (#[trigger] cs[j].key)->0@
}

/// A tree the keyed reconciler tracks exactly: attribute keys are distinct and
/// every child list is fully keyed with distinct keys, recursively.
pub open spec fn keyed_wf(e: ElementContent) -> bool
    decreases e,
{
    &&& attrs_wf(e.attributes@)
    &&& children_keyed(e.children@)
    &&& forall|i: int| 0 <= i < e.children@.len() ==> keyed_wf(#[trigger] e.children@[i])
}

/// Structural equality of two element trees: tag, attributes, text, children
/// and key all equal.
pub open spec fn elem_eq(a: ElementContent, b: ElementContent) -> bool
    decreases a,
{
    &&& a.tag@ == b.tag@
    &&& attrs_eq(a.attributes@, b.attributes@)
    &&& opt_view(a.text) == opt_view(b.text)
    &&& opt_view(a.key) == opt_view(b.key)
    &&& a.children@.len() == b.children@.len()
    &&& forall|i: int|
        0 <= i < a.children@.len() ==> elem_eq(#[trigger] a.children@[i], b.children@[i])
}

impl ElementContent {
    /// A structurally equal copy of this tree.
    pub fn deep_clone(&self) -> (r: ElementContent)
        ensures
            elem_eq(r, *self),
        decreases *self,
    {
        let tag: String = self.tag.clone();
        let mut attributes: Vec<(String, String)> = Vec::new();
        let na: usize = self.attributes.len();
        let mut i: usize = 0;
        while i < na
            invariant
                na == self.attributes@.len(),
                i <= na,
                attributes@.len() == i,
                forall|m: int|
                    0 <= m < i ==> attributes@[m].0@ == self.attributes@[m].0@
                        && attributes@[m].1@ == self.attributes@[m].1@,
            decreases na - i,
        {
            attributes.push((self.attributes[i].0.clone(), self.attributes[i].1.clone()));
            i = i + 1;
        }
        let text: Option<String> = match &self.text {
            Some(t) => Some(t.clone()),
            None => None,
        };
        let key: Option<String> = match &self.key {
            Some(k) => Some(k.clone()),
            None => None,
        };
        let mut children: Vec<ElementContent> = Vec::new();
        let nc: usize = self.children.len();
        let mut j: usize = 0;
        while j < nc
            invariant
                nc == self.children@.len(),
                j <= nc,
                children@.len() == j,
                forall|m: int| 0 <= m < j ==> elem_eq(#[trigger] children@[m], self.children@[m]),
            decreases nc - j,
        {
            children.push(self.children[j].deep_clone());
            j = j + 1;
        }
        ElementContent { tag, attributes, text, children, key }
    }
}

/// Equality test for optional strings.
pub fn opt_str_eq(a: &Option<String>, b: &Option<String>) -> (r: bool)
    ensures
        r == (opt_view(*a) == opt_view(*b)),
{
    match (a, b) {
        (None, None) => true,
        (Some(x), Some(y)) => *x == *y,
        _ => false,
    }
}

/// First-match lookup of `k` in an attribute list.
pub fn attrs_get<'a>(attrs: &'a Vec<(String, String)>, k: &String) -> (r: Option<&'a String>)
    ensures
        match r {
            Some(v) => assoc_get(attrs@, k@) == Some(v@),
            None => assoc_get(attrs@, k@) is None,
        },
{
    let n: usize = attrs.len();
    let mut i: usize = 0;
    proof {
        assert(attrs@.skip(0) =~= attrs@);
    }
    while i < n
        invariant
            n == attrs@.len(),
            i <= n,
            assoc_get(attrs@, k@) == assoc_get(attrs@.skip(i as int), k@),
        decreases n - i,
    {
        proof {
            assert(attrs@.skip(i as int)[0] == attrs@[i as int]);
            assert(attrs@.skip(i as int).drop_first() =~= attrs@.skip(i + 1));
        }
        if attrs[i].0 == *k {
            return Some(&attrs[i].1);
        }
        i = i + 1;
    }
    proof {
        assert(attrs@.skip(n as int) =~= Seq::<(String, String)>::empty());
    }
    None
}

} // verus!
