use vstd::prelude::*;
use vstd::string::{StrSliceExecFns, StringExecFns};

verus! {

/// A CSS rule set: selector to property list, in application order.
pub type CssRules = Vec<(String, Vec<(String, String)>)>;

/// One property line of a stringified rule.
pub open spec fn spec_prop_line(p: (String, String)) -> Seq<char> {
    "  "@ + p.0@ + ": "@ + p.1@ + ";"@
}

/// The property lines of one rule, joined by newlines.
pub open spec fn spec_props_text(ps: Seq<(String, String)>) -> Seq<char>
    decreases ps.len(),
{
    if ps.len() == 0 {
        Seq::empty()
    } else if ps.len() == 1 {
        spec_prop_line(ps[0])
    } else {
        spec_props_text(ps.drop_last()) + "\n"@ + spec_prop_line(ps.last())
    }
}

/// One stringified rule: the selector and its braced property block.
pub open spec fn spec_rule_text(r: (String, Vec<(String, String)>)) -> Seq<char> {
    r.0@ + " {\n"@ + spec_props_text(r.1@) + "\n}"@
}

/// The whole stringified rule set, rules joined by newlines.
pub open spec fn spec_css_text(rules: Seq<(String, Vec<(String, String)>)>) -> Seq<char>
    decreases rules.len(),
{
    if rules.len() == 0 {
        Seq::empty()
    } else if rules.len() == 1 {
        spec_rule_text(rules[0])
    } else {
        spec_css_text(rules.drop_last()) + "\n"@ + spec_rule_text(rules.last())
    }
}

/// How one attribute binds on a created or patched element: a named native
/// event listener, the click-callback listener, an intercepted anchor link,
/// or a plain attribute write.
#[derive(Debug)]
pub enum AttributeBinding {
    Event { event_type: String },
    Callback,
    Link,
    Plain,
}

/// Builds the text the live document gets from declarative content: the
/// stringified style sheet and the history bookkeeping decision. Building the
/// live elements themselves is the document side's work.
pub struct DomRenderer {}

impl DomRenderer {
    pub fn new() -> (r: DomRenderer) {
        DomRenderer {  }
    }

    /// The full stringified rule set that replaces the well-known style
    /// element's content: `selector {\n  property: value;\n}` blocks joined
    /// by newlines.
    pub fn apply_css_rules(&self, css_rules: &CssRules) -> (r: String)
        ensures
            r@ =~= spec_css_text(css_rules@),
    {
        let mut r: String = String::new();
        let n: usize = css_rules.len();
        let mut i: usize = 0;
        proof {
            assert(css_rules@.take(0) =~= Seq::<(String, Vec<(String, String)>)>::empty());
        }
        while i < n
            invariant
                n == css_rules@.len(),
                i <= n,
                r@ =~= spec_css_text(css_rules@.take(i as int)),
            decreases n - i,
        {
            proof {
                assert(css_rules@.take(i as int + 1).drop_last() =~= css_rules@.take(i as int));
                assert(css_rules@.take(i as int + 1).last() == css_rules@[i as int]);
            }
            if i > 0 {
                r.append("\n");
            }
            r.append(css_rules[i].0.as_str());
            r.append(" {\n");
            let props: &Vec<(String, String)> = &css_rules[i].1;
            let np: usize = props.len();
            let mut j: usize = 0;
            proof {
                assert(props@.take(0) =~= Seq::<(String, String)>::empty());
            }
            while j < np
                invariant
                    np == props@.len(),
                    i < n,
                    n == css_rules@.len(),
                    props == &css_rules@[i as int].1,
                    r@ =~= spec_css_text(css_rules@.take(i as int)) + (if i > 0 {
                        "\n"@
                    } else {
                        Seq::<char>::empty()
                    }) + css_rules@[i as int].0@ + " {\n"@ + spec_props_text(
                        props@.take(j as int),
                    ),
                    j <= np,
                decreases np - j,
            {
                proof {
                    assert(props@.take(j as int + 1).drop_last() =~= props@.take(j as int));
                    assert(props@.take(j as int + 1).last() == props@[j as int]);
                }
                if j > 0 {
                    r.append("\n");
                }
                r.append("  ");
                r.append(props[j].0.as_str());
                r.append(": ");
                r.append(props[j].1.as_str());
                r.append(";");
                j = j + 1;
            }
            proof {
                assert(props@.take(np as int) =~= props@);
            }
            r.append("\n}");
            i = i + 1;
        }
        proof {
            assert(css_rules@.take(n as int) =~= css_rules@);
        }
        r
    }

    /// Decides how one attribute binds: an `on`-prefixed name binds the named
    /// native event, the callback-id attribute binds the click callback, an
    /// `href` on an anchor element is intercepted as a navigation link, and
    /// everything else is written as a plain attribute.
    pub fn classify_attribute(key: &String, on_anchor: bool) -> (r: AttributeBinding)
        ensures
            if key@.len() > 2 && key@[0] == 'o' && key@[1] == 'n' {
                match r {
                    AttributeBinding::Event { event_type } => event_type@ == key@.skip(2),
                    _ => false,
                }
            } else if key@ == "data-callback-id"@ {
                r is Callback
            } else if on_anchor && key@ == "href"@ {
                r is Link
            } else {
                r is Plain
            },
    {
        let n: usize = key.as_str().unicode_len();
        if n > 2 && key.as_str().get_char(0) == 'o' && key.as_str().get_char(1) == 'n' {
            let event_type: String = String::from_str(key.as_str().substring_char(2, n));
            proof {
                assert(key@.subrange(2, n as int) =~= key@.skip(2));
            }
            AttributeBinding::Event { event_type }
        } else if *key == String::from_str("data-callback-id") {
            AttributeBinding::Callback
        } else if on_anchor && *key == String::from_str("href") {
            AttributeBinding::Link
        } else {
            AttributeBinding::Plain
        }
    }

    /// Whether the browser history gets a new entry: only when the new path
    /// differs from the current location's path.
    pub fn update_history(current_path: &String, path: &String) -> (push: bool)
        ensures
            push == (current_path@ != path@),
    {
        !(*current_path == *path)
    }
}

} // verus!
