use vstd::prelude::*;

use crate::error::AppError;
use crate::json::{
    fields_view_all, json_view, jsons_view_all, lemma_fields_view_index, lemma_fields_view_len,
    lemma_jsons_view_index, lemma_jsons_view_len, parse_json, spec_parse_json, Json, SpecJson,
};
use crate::vdom::content::{attrs_wf, opt_view};
use crate::vdom::render::{
    spec_css_text, spec_prop_line, spec_props_text, spec_rule_text, CssRules,
};
use crate::vdom::ElementContent;
use vstd::string::StringExecFns;

verus! {

broadcast use vstd::std_specs::vec::axiom_spec_len;

/// The single server-to-client envelope shape: an `action` with optional
/// fields per action. A present `server_public_key` short-circuits all other
/// fields; a present `encrypted_payload` with `nonce` wraps a complete inner
/// envelope.
#[derive(Debug)]
pub struct ServerMessage {
    pub action: String,
    pub content: Vec<ElementContent>,
    pub path: Option<String>,
    pub css_rules: Option<CssRules>,
    pub server_public_key: Option<String>,
    pub encrypted_payload: Option<String>,
    pub nonce: Option<String>,
    pub url: Option<String>,
}

// ---------------------------------------------------------------------------
// The mathematical value of a decoded envelope, and of the decode itself.
// ---------------------------------------------------------------------------

/// The mathematical value of one declarative element.
pub struct SpecElement {
    pub tag: Seq<char>,
    pub attributes: Seq<(Seq<char>, Seq<char>)>,
    pub text: Option<Seq<char>>,
    pub children: Seq<SpecElement>,
    pub key: Option<Seq<char>>,
}

/// The mathematical value of a CSS rule set.
pub type SpecCssRules = Seq<(Seq<char>, Seq<(Seq<char>, Seq<char>)>)>;

/// The mathematical value of one decoded envelope.
pub struct SpecServerMessage {
    pub action: Seq<char>,
    pub content: Seq<SpecElement>,
    pub path: Option<Seq<char>>,
    pub css_rules: Option<SpecCssRules>,
    pub server_public_key: Option<Seq<char>>,
    pub encrypted_payload: Option<Seq<char>>,
    pub nonce: Option<Seq<char>>,
    pub url: Option<Seq<char>>,
}

/// The mathematical value of an attribute or property list.
pub open spec fn sattrs_view(attrs: Seq<(String, String)>) -> Seq<(Seq<char>, Seq<char>)> {
    Seq::new(attrs.len(), |i: int| (attrs[i].0@, attrs[i].1@))
}

/// The mathematical values of the first `n` elements of a list.
pub open spec fn elems_view(cs: Seq<ElementContent>, n: int) -> Seq<SpecElement>
    decreases cs, n,
{
    if n <= 0 || n > cs.len() {
        Seq::empty()
    } else {
        elems_view(cs, n - 1).push(elem_view(cs[n - 1]))
    }
}

/// The mathematical value of one element tree.
pub open spec fn elem_view(e: ElementContent) -> SpecElement
    decreases e, 0int,
{
    SpecElement {
        tag: e.tag@,
        attributes: sattrs_view(e.attributes@),
        text: opt_view(e.text),
        children: elems_view(e.children@, e.children@.len() as int),
        key: opt_view(e.key),
    }
}

pub open spec fn elems_view_all(cs: Seq<ElementContent>) -> Seq<SpecElement> {
    elems_view(cs, cs.len() as int)
}

/// The mathematical value of a CSS rule list.
pub open spec fn rules_view(rs: Seq<(String, Vec<(String, String)>)>) -> SpecCssRules {
    Seq::new(rs.len(), |i: int| (rs[i].0@, sattrs_view(rs[i].1@)))
}

/// The mathematical value of a decoded envelope.
pub open spec fn msg_view(m: ServerMessage) -> SpecServerMessage {
    SpecServerMessage {
        action: m.action@,
        content: elems_view_all(m.content@),
        path: opt_view(m.path),
        css_rules: match m.css_rules {
            Some(r) => Some(rules_view(r@)),
            None => None,
        },
        server_public_key: opt_view(m.server_public_key),
        encrypted_payload: opt_view(m.encrypted_payload),
        nonce: opt_view(m.nonce),
        url: opt_view(m.url),
    }
}

pub proof fn lemma_elems_view_prefix(cs: Seq<ElementContent>, e: ElementContent, n: int)
    requires
        0 <= n <= cs.len(),
    ensures
        elems_view(cs.push(e), n) == elems_view(cs, n),
    decreases n,
{
    if n > 0 {
        lemma_elems_view_prefix(cs, e, n - 1);
        assert(cs.push(e)[n - 1] == cs[n - 1]);
    }
}

pub proof fn lemma_elems_view_push(cs: Seq<ElementContent>, e: ElementContent)
    ensures
        elems_view_all(cs.push(e)) == elems_view_all(cs).push(elem_view(e)),
{
    lemma_elems_view_prefix(cs, e, cs.len() as int);
    assert(cs.push(e)[cs.len() as int] == e);
}

/// One property line of a stringified rule, over mathematical values.
pub open spec fn spec_prop_line_v(p: (Seq<char>, Seq<char>)) -> Seq<char> {
    "  "@ + p.0 + ": "@ + p.1 + ";"@
}

/// The property lines of one rule, over mathematical values.
pub open spec fn spec_props_text_v(ps: Seq<(Seq<char>, Seq<char>)>) -> Seq<char>
    decreases ps.len(),
{
    if ps.len() == 0 {
        Seq::empty()
    } else if ps.len() == 1 {
        spec_prop_line_v(ps[0])
    } else {
        spec_props_text_v(ps.drop_last()) + "\n"@ + spec_prop_line_v(ps.last())
    }
}

/// One stringified rule, over mathematical values.
pub open spec fn spec_rule_text_v(r: (Seq<char>, Seq<(Seq<char>, Seq<char>)>)) -> Seq<char> {
    r.0 + " {\n"@ + spec_props_text_v(r.1) + "\n}"@
}

/// The whole stringified rule set, over mathematical values.
pub open spec fn spec_css_text_v(rules: SpecCssRules) -> Seq<char>
    decreases rules.len(),
{
    if rules.len() == 0 {
        Seq::empty()
    } else if rules.len() == 1 {
        spec_rule_text_v(rules[0])
    } else {
        spec_css_text_v(rules.drop_last()) + "\n"@ + spec_rule_text_v(rules.last())
    }
}

/// Stringifying properties commutes with taking mathematical values.
pub proof fn lemma_props_text_view(ps: Seq<(String, String)>)
    ensures
        spec_props_text(ps) == spec_props_text_v(sattrs_view(ps)),
    decreases ps.len(),
{
    if ps.len() > 0 {
        lemma_props_text_view(ps.drop_last());
        assert(sattrs_view(ps).drop_last() =~= sattrs_view(ps.drop_last()));
        assert(sattrs_view(ps).last() == (ps.last().0@, ps.last().1@));
        assert(spec_prop_line(ps.last()) == spec_prop_line_v((ps.last().0@, ps.last().1@)));
    }
}

/// Stringifying a rule set commutes with taking mathematical values.
pub proof fn lemma_css_text_view(rules: Seq<(String, Vec<(String, String)>)>)
    ensures
        spec_css_text(rules) == spec_css_text_v(rules_view(rules)),
    decreases rules.len(),
{
    if rules.len() > 0 {
        lemma_css_text_view(rules.drop_last());
        assert(rules_view(rules).drop_last() =~= rules_view(rules.drop_last()));
        assert(rules_view(rules).last() == (rules.last().0@, sattrs_view(rules.last().1@)));
        lemma_props_text_view(rules.last().1@);
        assert(spec_rule_text(rules.last()) == spec_rule_text_v(
            (rules.last().0@, sattrs_view(rules.last().1@)),
        ));
    }
}

/// The mathematical value of an element list is as long as the list.
pub proof fn lemma_elems_view_len(cs: Seq<ElementContent>, n: int)
    requires
        0 <= n <= cs.len(),
    ensures
        elems_view(cs, n).len() == n,
    decreases n,
{
    if n > 0 {
        lemma_elems_view_len(cs, n - 1);
    }
}

// ---------------------------------------------------------------------------
// The decode, as specification functions over the parsed JSON. Each mirrors
// the extraction below; the extraction's contracts equate the two.
// ---------------------------------------------------------------------------

/// An optional string field: absent and `null` both mean nothing, any other
/// non-string value is malformed.
pub open spec fn spec_opt_string_field(v: SpecJson) -> Option<Option<Seq<char>>> {
    match v {
        SpecJson::Null => Some(None),
        SpecJson::Str(s) => Some(Some(s)),
        _ => None,
    }
}

/// Whether one of the first `k` members carries this name.
pub open spec fn spec_name_in(fields: Seq<(Seq<char>, SpecJson)>, k: int, name: Seq<char>) -> bool {
    exists|m: int| 0 <= m < k && (#[trigger] fields[m]).0 == name
}

/// Replaces the first entry of that name — a later occurrence wins, at the
/// first occurrence's position — or appends one, as filling a map from a
/// JSON object does.
pub open spec fn spec_sattrs_insert(
    acc: Seq<(Seq<char>, Seq<char>)>,
    k: Seq<char>,
    v: Seq<char>,
) -> Seq<(Seq<char>, Seq<char>)>
    decreases acc.len(),
{
    if acc.len() == 0 {
        seq![(k, v)]
    } else if acc[0].0 == k {
        seq![(acc[0].0, v)] + acc.drop_first()
    } else {
        seq![acc[0]] + spec_sattrs_insert(acc.drop_first(), k, v)
    }
}

/// Replaces the first rule of that selector — a later occurrence wins — or
/// appends one.
pub open spec fn spec_srules_insert(
    acc: SpecCssRules,
    k: Seq<char>,
    ps: Seq<(Seq<char>, Seq<char>)>,
) -> SpecCssRules
    decreases acc.len(),
{
    if acc.len() == 0 {
        seq![(k, ps)]
    } else if acc[0].0 == k {
        seq![(acc[0].0, ps)] + acc.drop_first()
    } else {
        seq![acc[0]] + spec_srules_insert(acc.drop_first(), k, ps)
    }
}

/// The attribute map decoded from the first `n` members of an object:
/// string values only, a later duplicate of a name replacing the earlier
/// value (the list keeps distinct names).
pub open spec fn spec_attrs_of(attrs: Seq<(Seq<char>, SpecJson)>, n: int) -> Option<
    Seq<(Seq<char>, Seq<char>)>,
>
    decreases n,
{
    if n <= 0 || n > attrs.len() {
        Some(Seq::empty())
    } else {
        match spec_attrs_of(attrs, n - 1) {
            None => None,
            Some(acc) => match attrs[n - 1].1 {
                SpecJson::Str(val) => Some(spec_sattrs_insert(acc, attrs[n - 1].0, val)),
                _ => None,
            },
        }
    }
}

/// The property map decoded from the first `n` members of a rule object, a
/// later duplicate replacing the earlier value.
pub open spec fn spec_props_of(props: Seq<(Seq<char>, SpecJson)>, n: int) -> Option<
    Seq<(Seq<char>, Seq<char>)>,
>
    decreases n,
{
    if n <= 0 || n > props.len() {
        Some(Seq::empty())
    } else {
        match spec_props_of(props, n - 1) {
            None => None,
            Some(acc) => match props[n - 1].1 {
                SpecJson::Str(val) => Some(spec_sattrs_insert(acc, props[n - 1].0, val)),
                _ => None,
            },
        }
    }
}

/// The rule map decoded from the first `n` members of the css object, a
/// later duplicate selector replacing the earlier rule.
pub open spec fn spec_css_of(fields: Seq<(Seq<char>, SpecJson)>, n: int) -> Option<SpecCssRules>
    decreases n,
{
    if n <= 0 || n > fields.len() {
        Some(Seq::empty())
    } else {
        match spec_css_of(fields, n - 1) {
            None => None,
            Some(acc) => match fields[n - 1].1 {
                SpecJson::Obj(props) => match spec_props_of(props, props.len() as int) {
                    Some(ps) => Some(spec_srules_insert(acc, fields[n - 1].0, ps)),
                    None => None,
                },
                _ => None,
            },
        }
    }
}

/// The element-decode state after some of an object's members.
pub struct SpecElemState {
    pub tag: Option<Seq<char>>,
    pub attributes: Seq<(Seq<char>, Seq<char>)>,
    pub text: Option<Seq<char>>,
    pub children: Seq<SpecElement>,
    pub key: Option<Seq<char>>,
}

pub open spec fn spec_elem_state0() -> SpecElemState {
    SpecElemState {
        tag: None,
        attributes: Seq::empty(),
        text: None,
        children: Seq::empty(),
        key: None,
    }
}

/// The element-decode state after the first `n` members: known names must be
/// well typed, later occurrences win, unknown names are ignored.
pub open spec fn spec_elem_fields(fields: Seq<(Seq<char>, SpecJson)>, n: int) -> Option<
    SpecElemState,
>
    decreases fields, n,
{
    if n <= 0 || n > fields.len() {
        Some(spec_elem_state0())
    } else {
        match spec_elem_fields(fields, n - 1) {
            None => None,
            Some(st) => {
                let name = fields[n - 1].0;
                let value = fields[n - 1].1;
                if name == "tag"@ {
                    if spec_name_in(fields, n - 1, name) {
                        None
                    } else {
                        match value {
                            SpecJson::Str(sv) => Some(SpecElemState { tag: Some(sv), ..st }),
                            _ => None,
                        }
                    }
                } else if name == "attributes"@ {
                    if spec_name_in(fields, n - 1, name) {
                        None
                    } else {
                        match value {
                            SpecJson::Obj(attrs) => match spec_attrs_of(
                                attrs,
                                attrs.len() as int,
                            ) {
                                Some(a) => Some(SpecElemState { attributes: a, ..st }),
                                None => None,
                            },
                            _ => None,
                        }
                    }
                } else if name == "text"@ {
                    if spec_name_in(fields, n - 1, name) {
                        None
                    } else {
                        match spec_opt_string_field(value) {
                            Some(t) => Some(SpecElemState { text: t, ..st }),
                            None => None,
                        }
                    }
                } else if name == "children"@ {
                    if spec_name_in(fields, n - 1, name) {
                        None
                    } else {
                        match value {
                            SpecJson::Arr(items) => match spec_elems_of(
                                items,
                                items.len() as int,
                            ) {
                                Some(cs) => Some(SpecElemState { children: cs, ..st }),
                                None => None,
                            },
                            _ => None,
                        }
                    }
                } else if name == "key"@ {
                    if spec_name_in(fields, n - 1, name) {
                        None
                    } else {
                        match spec_opt_string_field(value) {
                            Some(t) => Some(SpecElemState { key: t, ..st }),
                            None => None,
                        }
                    }
                } else {
                    Some(st)
                }
            },
        }
    }
}

/// One declarative element decoded from a JSON value: an object whose `tag`
/// is present.
pub open spec fn spec_elem_of(v: SpecJson) -> Option<SpecElement>
    decreases v, 0int,
{
    match v {
        SpecJson::Obj(fields) => match spec_elem_fields(fields, fields.len() as int) {
            Some(st) => match st.tag {
                Some(t) => Some(
                    SpecElement {
                        tag: t,
                        attributes: st.attributes,
                        text: st.text,
                        children: st.children,
                        key: st.key,
                    },
                ),
                None => None,
            },
            None => None,
        },
        _ => None,
    }
}

/// The elements decoded from the first `n` values of an array.
pub open spec fn spec_elems_of(items: Seq<SpecJson>, n: int) -> Option<Seq<SpecElement>>
    decreases items, n,
{
    if n <= 0 || n > items.len() {
        Some(Seq::empty())
    } else {
        match spec_elems_of(items, n - 1) {
            None => None,
            Some(acc) => match spec_elem_of(items[n - 1]) {
                Some(el) => Some(acc.push(el)),
                None => None,
            },
        }
    }
}

/// The envelope-decode state after some of the frame object's members.
pub struct SpecMsgState {
    pub action: Option<Seq<char>>,
    pub content: Seq<SpecElement>,
    pub path: Option<Seq<char>>,
    pub css_rules: Option<SpecCssRules>,
    pub server_public_key: Option<Seq<char>>,
    pub encrypted_payload: Option<Seq<char>>,
    pub nonce: Option<Seq<char>>,
    pub url: Option<Seq<char>>,
}

pub open spec fn spec_msg_state0() -> SpecMsgState {
    SpecMsgState {
        action: None,
        content: Seq::empty(),
        path: None,
        css_rules: None,
        server_public_key: None,
        encrypted_payload: None,
        nonce: None,
        url: None,
    }
}

/// The envelope-decode state after the first `n` members of the frame
/// object.
pub open spec fn spec_msg_fields(fields: Seq<(Seq<char>, SpecJson)>, n: int) -> Option<
    SpecMsgState,
>
    decreases n,
{
    if n <= 0 || n > fields.len() {
        Some(spec_msg_state0())
    } else {
        match spec_msg_fields(fields, n - 1) {
            None => None,
            Some(st) => {
                let name = fields[n - 1].0;
                let value = fields[n - 1].1;
                if name == "action"@ {
                    if spec_name_in(fields, n - 1, name) {
                        None
                    } else {
                        match value {
                            SpecJson::Str(sv) => Some(SpecMsgState { action: Some(sv), ..st }),
                            _ => None,
                        }
                    }
                } else if name == "content"@ {
                    if spec_name_in(fields, n - 1, name) {
                        None
                    } else {
                        match value {
                            SpecJson::Arr(items) => match spec_elems_of(
                                items,
                                items.len() as int,
                            ) {
                                Some(cs) => Some(SpecMsgState { content: cs, ..st }),
                                None => None,
                            },
                            _ => None,
                        }
                    }
                } else if name == "css_rules"@ {
                    if spec_name_in(fields, n - 1, name) {
                        None
                    } else {
                        match value {
                            SpecJson::Null => Some(st),
                            SpecJson::Obj(rf) => match spec_css_of(rf, rf.len() as int) {
                                Some(rules) => Some(
                                    SpecMsgState { css_rules: Some(rules), ..st },
                                ),
                                None => None,
                            },
                            _ => None,
                        }
                    }
                } else if name == "path"@ {
                    if spec_name_in(fields, n - 1, name) {
                        None
                    } else {
                        match spec_opt_string_field(value) {
                            Some(t) => Some(SpecMsgState { path: t, ..st }),
                            None => None,
                        }
                    }
                } else if name == "server_public_key"@ {
                    if spec_name_in(fields, n - 1, name) {
                        None
                    } else {
                        match spec_opt_string_field(value) {
                            Some(t) => Some(SpecMsgState { server_public_key: t, ..st }),
                            None => None,
                        }
                    }
                } else if name == "encrypted_payload"@ {
                    if spec_name_in(fields, n - 1, name) {
                        None
                    } else {
                        match spec_opt_string_field(value) {
                            Some(t) => Some(SpecMsgState { encrypted_payload: t, ..st }),
                            None => None,
                        }
                    }
                } else if name == "nonce"@ {
                    if spec_name_in(fields, n - 1, name) {
                        None
                    } else {
                        match spec_opt_string_field(value) {
                            Some(t) => Some(SpecMsgState { nonce: t, ..st }),
                            None => None,
                        }
                    }
                } else if name == "url"@ {
                    if spec_name_in(fields, n - 1, name) {
                        None
                    } else {
                        match spec_opt_string_field(value) {
                            Some(t) => Some(SpecMsgState { url: t, ..st }),
                            None => None,
                        }
                    }
                } else {
                    Some(st)
                }
            },
        }
    }
}

/// What one inbound frame decodes to: a JSON object with a string `action`
/// and well-typed optional fields, or nothing. This is the whole decode of
/// the wire text.
pub open spec fn spec_server_message(s: Seq<char>) -> Option<SpecServerMessage> {
    match spec_parse_json(s) {
        Some(SpecJson::Obj(fields)) => match spec_msg_fields(fields, fields.len() as int) {
            Some(st) => match st.action {
                Some(a) => Some(
                    SpecServerMessage {
                        action: a,
                        content: st.content,
                        path: st.path,
                        css_rules: st.css_rules,
                        server_public_key: st.server_public_key,
                        encrypted_payload: st.encrypted_payload,
                        nonce: st.nonce,
                        url: st.url,
                    },
                ),
                None => None,
            },
            None => None,
        },
        _ => None,
    }
}

// None-propagation: a failed decode stays failed over more members.

proof fn lemma_elem_fields_none(fields: Seq<(Seq<char>, SpecJson)>, m: int, n: int)
    requires
        0 <= m <= n <= fields.len(),
        spec_elem_fields(fields, m) is None,
    ensures
        spec_elem_fields(fields, n) is None,
    decreases n - m,
{
    if m < n {
        lemma_elem_fields_none(fields, m, n - 1);
    }
}

proof fn lemma_elems_of_none(items: Seq<SpecJson>, m: int, n: int)
    requires
        0 <= m <= n <= items.len(),
        spec_elems_of(items, m) is None,
    ensures
        spec_elems_of(items, n) is None,
    decreases n - m,
{
    if m < n {
        lemma_elems_of_none(items, m, n - 1);
    }
}

proof fn lemma_attrs_of_none(attrs: Seq<(Seq<char>, SpecJson)>, m: int, n: int)
    requires
        0 <= m <= n <= attrs.len(),
        spec_attrs_of(attrs, m) is None,
    ensures
        spec_attrs_of(attrs, n) is None,
    decreases n - m,
{
    if m < n {
        lemma_attrs_of_none(attrs, m, n - 1);
    }
}

proof fn lemma_props_of_none(props: Seq<(Seq<char>, SpecJson)>, m: int, n: int)
    requires
        0 <= m <= n <= props.len(),
        spec_props_of(props, m) is None,
    ensures
        spec_props_of(props, n) is None,
    decreases n - m,
{
    if m < n {
        lemma_props_of_none(props, m, n - 1);
    }
}

proof fn lemma_css_of_none(fields: Seq<(Seq<char>, SpecJson)>, m: int, n: int)
    requires
        0 <= m <= n <= fields.len(),
        spec_css_of(fields, m) is None,
    ensures
        spec_css_of(fields, n) is None,
    decreases n - m,
{
    if m < n {
        lemma_css_of_none(fields, m, n - 1);
    }
}

proof fn lemma_msg_fields_none(fields: Seq<(Seq<char>, SpecJson)>, m: int, n: int)
    requires
        0 <= m <= n <= fields.len(),
        spec_msg_fields(fields, m) is None,
    ensures
        spec_msg_fields(fields, n) is None,
    decreases n - m,
{
    if m < n {
        lemma_msg_fields_none(fields, m, n - 1);
    }
}

/// When the name sits first at `i`, folding in replaces exactly that entry.
proof fn lemma_sattrs_insert_found(
    acc: Seq<(Seq<char>, Seq<char>)>,
    k: Seq<char>,
    v: Seq<char>,
    i: int,
)
    requires
        0 <= i < acc.len(),
        forall|m: int| 0 <= m < i ==> (#[trigger] acc[m]).0 != k,
        acc[i].0 == k,
    ensures
        spec_sattrs_insert(acc, k, v) =~= acc.update(i, (acc[i].0, v)),
    decreases i,
{
    if i == 0 {
        assert(spec_sattrs_insert(acc, k, v) =~= seq![(acc[0].0, v)] + acc.drop_first());
        assert(seq![(acc[0].0, v)] + acc.drop_first() =~= acc.update(0, (acc[0].0, v)));
    } else {
        assert(acc[0].0 != k);
        let t = acc.drop_first();
        assert forall|m: int| 0 <= m < i - 1 implies (#[trigger] t[m]).0 != k by {
            assert(t[m] == acc[m + 1]);
        }
        assert(t[i - 1] == acc[i]);
        lemma_sattrs_insert_found(t, k, v, i - 1);
        assert(spec_sattrs_insert(acc, k, v) =~= seq![acc[0]] + t.update(i - 1, (acc[i].0, v)));
        assert(seq![acc[0]] + t.update(i - 1, (acc[i].0, v)) =~= acc.update(i, (acc[i].0, v)));
    }
}

/// When the name occurs nowhere, folding in appends.
proof fn lemma_sattrs_insert_absent(acc: Seq<(Seq<char>, Seq<char>)>, k: Seq<char>, v: Seq<char>)
    requires
        forall|m: int| 0 <= m < acc.len() ==> (#[trigger] acc[m]).0 != k,
    ensures
        spec_sattrs_insert(acc, k, v) =~= acc.push((k, v)),
    decreases acc.len(),
{
    if acc.len() > 0 {
        let t = acc.drop_first();
        assert forall|m: int| 0 <= m < t.len() implies (#[trigger] t[m]).0 != k by {
            assert(t[m] == acc[m + 1]);
        }
        lemma_sattrs_insert_absent(t, k, v);
        assert(spec_sattrs_insert(acc, k, v) =~= seq![acc[0]] + t.push((k, v)));
        assert(seq![acc[0]] + t.push((k, v)) =~= acc.push((k, v)));
    }
}

/// When the selector sits first at `i`, folding in replaces exactly that rule.
proof fn lemma_srules_insert_found(
    acc: SpecCssRules,
    k: Seq<char>,
    ps: Seq<(Seq<char>, Seq<char>)>,
    i: int,
)
    requires
        0 <= i < acc.len(),
        forall|m: int| 0 <= m < i ==> (#[trigger] acc[m]).0 != k,
        acc[i].0 == k,
    ensures
        spec_srules_insert(acc, k, ps) =~= acc.update(i, (acc[i].0, ps)),
    decreases i,
{
    if i == 0 {
        assert(spec_srules_insert(acc, k, ps) =~= seq![(acc[0].0, ps)] + acc.drop_first());
        assert(seq![(acc[0].0, ps)] + acc.drop_first() =~= acc.update(0, (acc[0].0, ps)));
    } else {
        assert(acc[0].0 != k);
        let t = acc.drop_first();
        assert forall|m: int| 0 <= m < i - 1 implies (#[trigger] t[m]).0 != k by {
            assert(t[m] == acc[m + 1]);
        }
        assert(t[i - 1] == acc[i]);
        lemma_srules_insert_found(t, k, ps, i - 1);
        assert(spec_srules_insert(acc, k, ps) =~= seq![acc[0]] + t.update(i - 1, (acc[i].0, ps)));
        assert(seq![acc[0]] + t.update(i - 1, (acc[i].0, ps)) =~= acc.update(i, (acc[i].0, ps)));
    }
}

/// When the selector occurs nowhere, folding in appends.
proof fn lemma_srules_insert_absent(acc: SpecCssRules, k: Seq<char>, ps: Seq<(Seq<char>, Seq<char>)>)
    requires
        forall|m: int| 0 <= m < acc.len() ==> (#[trigger] acc[m]).0 != k,
    ensures
        spec_srules_insert(acc, k, ps) =~= acc.push((k, ps)),
    decreases acc.len(),
{
    if acc.len() > 0 {
        let t = acc.drop_first();
        assert forall|m: int| 0 <= m < t.len() implies (#[trigger] t[m]).0 != k by {
            assert(t[m] == acc[m + 1]);
        }
        lemma_srules_insert_absent(t, k, ps);
        assert(spec_srules_insert(acc, k, ps) =~= seq![acc[0]] + t.push((k, ps)));
        assert(seq![acc[0]] + t.push((k, ps)) =~= acc.push((k, ps)));
    }
}

/// Whether one of the first `upto` members of the object carries this name.
fn name_seen(fields: &Vec<(String, Json)>, upto: usize, name: &String) -> (r: bool)
    requires
        upto <= fields@.len(),
    ensures
        r == spec_name_in(fields_view_all(fields@), upto as int, name@),
{
    let ghost fv: Seq<(Seq<char>, SpecJson)> = fields_view_all(fields@);
    proof {
        lemma_fields_view_len(fields@, fields@.len() as int);
    }
    let mut j: usize = 0;
    while j < upto
        invariant
            upto <= fields@.len(),
            fv == fields_view_all(fields@),
            fv.len() == fields@.len(),
            j <= upto,
            forall|m: int| 0 <= m < j ==> (#[trigger] fv[m]).0 != name@,
        decreases upto - j,
    {
        proof {
            lemma_fields_view_index(fields@, fields@.len() as int, j as int);
        }
        if fields[j].0 == *name {
            proof {
                assert(fv[j as int].0 == name@);
            }
            return true;
        }
        j = j + 1;
    }
    false
}

/// Folds one attribute in: a later duplicate of a name replaces the earlier
/// value, and the list keeps distinct names.
fn attrs_insert(attrs: &mut Vec<(String, String)>, name: String, val: String)
    requires
        attrs_wf(old(attrs)@),
    ensures
        sattrs_view(final(attrs)@) =~= spec_sattrs_insert(
            sattrs_view(old(attrs)@),
            name@,
            val@,
        ),
        attrs_wf(final(attrs)@),
{
    let ghost f0: Seq<(String, String)> = attrs@;
    let ghost sv: Seq<(Seq<char>, Seq<char>)> = sattrs_view(attrs@);
    let n: usize = attrs.len();
    let mut i: usize = 0;
    while i < n
        invariant
            n == f0.len(),
            f0 == old(attrs)@,
            attrs@ == f0,
            sv == sattrs_view(f0),
            attrs_wf(f0),
            i <= n,
            forall|m: int| 0 <= m < i ==> (#[trigger] f0[m]).0@ != name@,
        decreases n - i,
    {
        if attrs[i].0 == name {
            proof {
                assert forall|m: int| 0 <= m < i implies (#[trigger] sv[m]).0 != name@ by {
                    assert(sv[m].0 == f0[m].0@);
                }
                assert(sv[i as int].0 == name@);
                lemma_sattrs_insert_found(sv, name@, val@, i as int);
            }
            let kept: String = attrs[i].0.clone();
            attrs.set(i, (kept, val));
            proof {
                assert(sattrs_view(attrs@) =~= sv.update(i as int, (sv[i as int].0, val@)));
                assert forall|a: int, b: int| 0 <= a < b < attrs@.len() implies attrs@[a].0@
                    != attrs@[b].0@ by {
                    assert(attrs@[a].0@ == f0[a].0@);
                    assert(attrs@[b].0@ == f0[b].0@);
                }
            }
            return ;
        }
        i = i + 1;
    }
    proof {
        lemma_sattrs_insert_absent(sv, name@, val@);
        assert(sattrs_view(attrs@.push((name, val))) =~= sv.push((name@, val@)));
        assert forall|a: int, b: int| 0 <= a < b < attrs@.push((name, val)).len() implies attrs@
            .push((name, val))[a].0@ != attrs@.push((name, val))[b].0@ by {
            assert(attrs@.push((name, val))[a] == f0[a]);
            if b < n {
                assert(attrs@.push((name, val))[b] == f0[b]);
            } else {
                assert(attrs@.push((name, val))[b].0 == name);
            }
        }
    }
    attrs.push((name, val));
}

/// Folds one rule in: a later duplicate selector replaces the earlier rule.
fn rules_insert(rules: &mut CssRules, name: String, plist: Vec<(String, String)>)
    ensures
        rules_view(final(rules)@) =~= spec_srules_insert(
            rules_view(old(rules)@),
            name@,
            sattrs_view(plist@),
        ),
{
    let ghost f0: Seq<(String, Vec<(String, String)>)> = rules@;
    let ghost rv: SpecCssRules = rules_view(rules@);
    let n: usize = rules.len();
    let mut i: usize = 0;
    while i < n
        invariant
            n == f0.len(),
            f0 == old(rules)@,
            rules@ == f0,
            rv == rules_view(f0),
            i <= n,
            forall|m: int| 0 <= m < i ==> (#[trigger] f0[m]).0@ != name@,
        decreases n - i,
    {
        if rules[i].0 == name {
            proof {
                assert forall|m: int| 0 <= m < i implies (#[trigger] rv[m]).0 != name@ by {
                    assert(rv[m].0 == f0[m].0@);
                }
                assert(rv[i as int].0 == name@);
                lemma_srules_insert_found(rv, name@, sattrs_view(plist@), i as int);
            }
            let kept: String = rules[i].0.clone();
            rules.set(i, (kept, plist));
            proof {
                assert(rules_view(rules@) =~= rv.update(
                    i as int,
                    (rv[i as int].0, sattrs_view(plist@)),
                ));
            }
            return ;
        }
        i = i + 1;
    }
    proof {
        lemma_srules_insert_absent(rv, name@, sattrs_view(plist@));
        assert(rules_view(rules@.push((name, plist))) =~= rv.push((name@, sattrs_view(plist@))));
    }
    rules.push((name, plist));
}

// ---------------------------------------------------------------------------
// The extraction.
// ---------------------------------------------------------------------------

/// An optional string field: absent and `null` both mean nothing, any other
/// non-string value is malformed.
fn opt_string_field(v: &Json) -> (r: Option<Option<String>>)
    ensures
        match r {
            Some(t) => spec_opt_string_field(json_view(*v)) == Some(opt_view(t)),
            None => spec_opt_string_field(json_view(*v)) is None,
        },
{
    match v {
        Json::Null => Some(None),
        Json::Str(s) => Some(Some(s.clone())),
        _ => None,
    }
}

/// One declarative element from its JSON object, exactly as `spec_elem_of`
/// decodes it; the decoded attribute list carries distinct names.
#[verifier::loop_isolation(false)]
fn json_to_element(v: &Json) -> (r: Option<ElementContent>)
    ensures
        match r {
            Some(el) => spec_elem_of(json_view(*v)) == Some(elem_view(el)) && attrs_wf(
                el.attributes@,
            ),
            None => spec_elem_of(json_view(*v)) is None,
        },
    decreases *v,
{
    let fields: &Vec<(String, Json)> = match v {
        Json::Obj(fields) => fields,
        _ => {
            return None;
        },
    };
    let ghost fv: Seq<(Seq<char>, SpecJson)> = fields_view_all(fields@);
    proof {
        lemma_fields_view_len(fields@, fields@.len() as int);
        assert(json_view(*v) == SpecJson::Obj(fv));
    }
    let k_tag: String = String::from_str("tag");
    let k_attributes: String = String::from_str("attributes");
    let k_text: String = String::from_str("text");
    let k_children: String = String::from_str("children");
    let k_key: String = String::from_str("key");

    let mut tag: Option<String> = None;
    let mut attributes: Vec<(String, String)> = Vec::new();
    let mut text: Option<String> = None;
    let mut children: Vec<ElementContent> = Vec::new();
    let mut key: Option<String> = None;

    let nf: usize = fields.len();
    let mut i: usize = 0;
    proof {
        assert(sattrs_view(attributes@) =~= Seq::<(Seq<char>, Seq<char>)>::empty());
        assert(elems_view_all(children@) =~= Seq::<SpecElement>::empty());
    }
    while i < nf
        invariant
            i <= nf,
            attrs_wf(attributes@),
            spec_elem_fields(fv, i as int) == Some(
                SpecElemState {
                    tag: opt_view(tag),
                    attributes: sattrs_view(attributes@),
                    text: opt_view(text),
                    children: elems_view_all(children@),
                    key: opt_view(key),
                },
            ),
        decreases nf - i,
    {
        proof {
            lemma_fields_view_index(fields@, nf as int, i as int);
        }
        let name: &String = &fields[i].0;
        if *name == k_tag {
            if name_seen(fields, i, name) {
                proof {
                    lemma_elem_fields_none(fv, i as int + 1, nf as int);
                }
                return None;
            }
            match &fields[i].1 {
                Json::Str(s) => {
                    tag = Some(s.clone());
                },
                _ => {
                    proof {
                        lemma_elem_fields_none(fv, i as int + 1, nf as int);
                    }
                    return None;
                },
            }
        } else if *name == k_attributes {
            if name_seen(fields, i, name) {
                proof {
                    lemma_elem_fields_none(fv, i as int + 1, nf as int);
                }
                return None;
            }
            match &fields[i].1 {
                Json::Obj(attrs) => {
                    let ghost av: Seq<(Seq<char>, SpecJson)> = fields_view_all(attrs@);
                    proof {
                        lemma_fields_view_len(attrs@, attrs@.len() as int);
                    }
                    attributes = Vec::new();
                    proof {
                        assert(sattrs_view(attributes@) =~= Seq::<(Seq<char>, Seq<char>)>::empty());
                    }
                    let na: usize = attrs.len();
                    let mut a: usize = 0;
                    while a < na
                        invariant
                            a <= na,
                            attrs_wf(attributes@),
                            spec_attrs_of(av, a as int) == Some(sattrs_view(attributes@)),
                        decreases na - a,
                    {
                        proof {
                            lemma_fields_view_index(attrs@, na as int, a as int);
                        }
                        match &attrs[a].1 {
                            Json::Str(val) => {
                                attrs_insert(&mut attributes, attrs[a].0.clone(), val.clone());
                            },
                            _ => {
                                proof {
                                    lemma_attrs_of_none(av, a as int + 1, na as int);
                                    lemma_elem_fields_none(fv, i as int + 1, nf as int);
                                }
                                return None;
                            },
                        }
                        a = a + 1;
                    }
                },
                _ => {
                    proof {
                        lemma_elem_fields_none(fv, i as int + 1, nf as int);
                    }
                    return None;
                },
            }
        } else if *name == k_text {
            if name_seen(fields, i, name) {
                proof {
                    lemma_elem_fields_none(fv, i as int + 1, nf as int);
                }
                return None;
            }
            match opt_string_field(&fields[i].1) {
                Some(t) => {
                    text = t;
                },
                None => {
                    proof {
                        lemma_elem_fields_none(fv, i as int + 1, nf as int);
                    }
                    return None;
                },
            }
        } else if *name == k_children {
            if name_seen(fields, i, name) {
                proof {
                    lemma_elem_fields_none(fv, i as int + 1, nf as int);
                }
                return None;
            }
            match &fields[i].1 {
                Json::Arr(items) => {
                    let ghost iv: Seq<SpecJson> = jsons_view_all(items@);
                    proof {
                        lemma_jsons_view_len(items@, items@.len() as int);
                    }
                    children = Vec::new();
                    proof {
                        assert(elems_view_all(children@) =~= Seq::<SpecElement>::empty());
                    }
                    let nc: usize = items.len();
                    let mut c: usize = 0;
                    while c < nc
                        invariant
                            c <= nc,
                            spec_elems_of(iv, c as int) == Some(elems_view_all(children@)),
                        decreases nc - c,
                    {
                        proof {
                            lemma_jsons_view_index(items@, nc as int, c as int);
                        }
                        match json_to_element(&items[c]) {
                            Some(child) => {
                                proof {
                                    lemma_elems_view_push(children@, child);
                                }
                                children.push(child);
                            },
                            None => {
                                proof {
                                    lemma_elems_of_none(iv, c as int + 1, nc as int);
                                    lemma_elem_fields_none(fv, i as int + 1, nf as int);
                                }
                                return None;
                            },
                        }
                        c = c + 1;
                    }
                },
                _ => {
                    proof {
                        lemma_elem_fields_none(fv, i as int + 1, nf as int);
                    }
                    return None;
                },
            }
        } else if *name == k_key {
            if name_seen(fields, i, name) {
                proof {
                    lemma_elem_fields_none(fv, i as int + 1, nf as int);
                }
                return None;
            }
            match opt_string_field(&fields[i].1) {
                Some(t) => {
                    key = t;
                },
                None => {
                    proof {
                        lemma_elem_fields_none(fv, i as int + 1, nf as int);
                    }
                    return None;
                },
            }
        }
        i = i + 1;
    }
    match tag {
        Some(tag) => Some(ElementContent { tag, attributes, text, children, key }),
        None => None,
    }
}

/// A CSS rule set from its JSON object, exactly as `spec_css_of` decodes it.
#[verifier::loop_isolation(false)]
fn json_to_css(fields: &Vec<(String, Json)>) -> (r: Option<CssRules>)
    ensures
        match r {
            Some(rules) => spec_css_of(fields_view_all(fields@), fields@.len() as int) == Some(
                rules_view(rules@),
            ),
            None => spec_css_of(fields_view_all(fields@), fields@.len() as int) is None,
        },
{
    let ghost fv: Seq<(Seq<char>, SpecJson)> = fields_view_all(fields@);
    proof {
        lemma_fields_view_len(fields@, fields@.len() as int);
    }
    let mut rules: CssRules = Vec::new();
    proof {
        assert(rules_view(rules@) =~= Seq::<(Seq<char>, Seq<(Seq<char>, Seq<char>)>)>::empty());
    }
    let n: usize = fields.len();
    let mut i: usize = 0;
    while i < n
        invariant
            i <= n,
            spec_css_of(fv, i as int) == Some(rules_view(rules@)),
        decreases n - i,
    {
        proof {
            lemma_fields_view_index(fields@, n as int, i as int);
        }
        match &fields[i].1 {
            Json::Obj(props) => {
                let ghost pv: Seq<(Seq<char>, SpecJson)> = fields_view_all(props@);
                proof {
                    lemma_fields_view_len(props@, props@.len() as int);
                }
                let mut plist: Vec<(String, String)> = Vec::new();
                proof {
                    assert(sattrs_view(plist@) =~= Seq::<(Seq<char>, Seq<char>)>::empty());
                }
                let np: usize = props.len();
                let mut p: usize = 0;
                while p < np
                    invariant
                        p <= np,
                        attrs_wf(plist@),
                        spec_props_of(pv, p as int) == Some(sattrs_view(plist@)),
                    decreases np - p,
                {
                    proof {
                        lemma_fields_view_index(props@, np as int, p as int);
                    }
                    match &props[p].1 {
                        Json::Str(val) => {
                            attrs_insert(&mut plist, props[p].0.clone(), val.clone());
                        },
                        _ => {
                            proof {
                                lemma_props_of_none(pv, p as int + 1, np as int);
                                lemma_css_of_none(fv, i as int + 1, n as int);
                            }
                            return None;
                        },
                    }
                    p = p + 1;
                }
                rules_insert(&mut rules, fields[i].0.clone(), plist);
            },
            _ => {
                proof {
                    lemma_css_of_none(fv, i as int + 1, n as int);
                }
                return None;
            },
        }
        i = i + 1;
    }
    Some(rules)
}

impl ServerMessage {
    /// Decodes one inbound frame, exactly as `spec_server_message` decodes
    /// its text: anything that is not a JSON object with a string `action`
    /// and well-typed optional fields is a decode error, reported — never a
    /// crash.
    #[verifier::loop_isolation(false)]
    pub fn from_json(s: &str) -> (r: Result<ServerMessage, AppError>)
        ensures
            match r {
                Ok(m) => spec_server_message(s@) == Some(msg_view(m)),
                Err(_) => spec_server_message(s@) is None,
            },
            match r {
                Ok(_) => true,
                Err(e) => match e {
                    AppError::SerializationError(s2) => s2@.len() <= 64,
                    _ => false,
                },
            },
    {
        proof {
            reveal_strlit("invalid JSON in envelope");
            reveal_strlit("envelope is not an object");
            reveal_strlit("duplicate field in envelope");
            reveal_strlit("action is not a string");
            reveal_strlit("malformed element content");
            reveal_strlit("content is not an array");
            reveal_strlit("malformed css rules");
            reveal_strlit("css_rules is not an object");
            reveal_strlit("path is not a string");
            reveal_strlit("server_public_key is not a string");
            reveal_strlit("encrypted_payload is not a string");
            reveal_strlit("nonce is not a string");
            reveal_strlit("url is not a string");
            reveal_strlit("envelope has no action");
        }
        let parsed: Option<Json> = parse_json(s);
        let v: Json = match parsed {
            Some(v) => v,
            None => {
                return Err(
                    AppError::SerializationError(String::from_str("invalid JSON in envelope")),
                );
            },
        };
        let fields: &Vec<(String, Json)> = match &v {
            Json::Obj(fields) => fields,
            _ => {
                return Err(
                    AppError::SerializationError(String::from_str("envelope is not an object")),
                );
            },
        };
        let ghost fv: Seq<(Seq<char>, SpecJson)> = fields_view_all(fields@);
        proof {
            lemma_fields_view_len(fields@, fields@.len() as int);
            assert(json_view(v) == SpecJson::Obj(fv));
        }
        let k_action: String = String::from_str("action");
        let k_content: String = String::from_str("content");
        let k_path: String = String::from_str("path");
        let k_css_rules: String = String::from_str("css_rules");
        let k_server_public_key: String = String::from_str("server_public_key");
        let k_encrypted_payload: String = String::from_str("encrypted_payload");
        let k_nonce: String = String::from_str("nonce");
        let k_url: String = String::from_str("url");

        let mut action: Option<String> = None;
        let mut content: Vec<ElementContent> = Vec::new();
        let mut path: Option<String> = None;
        let mut css_rules: Option<CssRules> = None;
        let mut server_public_key: Option<String> = None;
        let mut encrypted_payload: Option<String> = None;
        let mut nonce: Option<String> = None;
        let mut url: Option<String> = None;

        let n: usize = fields.len();
        let mut i: usize = 0;
        proof {
            assert(elems_view_all(content@) =~= Seq::<SpecElement>::empty());
        }
        while i < n
            invariant
                i <= n,
                spec_msg_fields(fv, i as int) == Some(
                    SpecMsgState {
                        action: opt_view(action),
                        content: elems_view_all(content@),
                        path: opt_view(path),
                        css_rules: match css_rules {
                            Some(r) => Some(rules_view(r@)),
                            None => None,
                        },
                        server_public_key: opt_view(server_public_key),
                        encrypted_payload: opt_view(encrypted_payload),
                        nonce: opt_view(nonce),
                        url: opt_view(url),
                    },
                ),
            decreases n - i,
        {
            proof {
                lemma_fields_view_index(fields@, n as int, i as int);
            }
            let name: &String = &fields[i].0;
            let value: &Json = &fields[i].1;
            if *name == k_action {
                if name_seen(fields, i, name) {
                    proof {
                        lemma_msg_fields_none(fv, i as int + 1, n as int);
                    }
                    return Err(
                        AppError::SerializationError(
                            String::from_str("duplicate field in envelope"),
                        ),
                    );
                }
                match value {
                    Json::Str(s2) => {
                        action = Some(s2.clone());
                    },
                    _ => {
                        proof {
                            lemma_msg_fields_none(fv, i as int + 1, n as int);
                        }
                        return Err(
                            AppError::SerializationError(
                                String::from_str("action is not a string"),
                            ),
                        );
                    },
                }
            } else if *name == k_content {
                if name_seen(fields, i, name) {
                    proof {
                        lemma_msg_fields_none(fv, i as int + 1, n as int);
                    }
                    return Err(
                        AppError::SerializationError(
                            String::from_str("duplicate field in envelope"),
                        ),
                    );
                }
                match value {
                    Json::Arr(items) => {
                        let ghost iv: Seq<SpecJson> = jsons_view_all(items@);
                        proof {
                            lemma_jsons_view_len(items@, items@.len() as int);
                        }
                        content = Vec::new();
                        proof {
                            assert(elems_view_all(content@) =~= Seq::<SpecElement>::empty());
                        }
                        let nc: usize = items.len();
                        let mut c: usize = 0;
                        while c < nc
                            invariant
                                c <= nc,
                                spec_elems_of(iv, c as int) == Some(elems_view_all(content@)),
                            decreases nc - c,
                        {
                            proof {
                                lemma_jsons_view_index(items@, nc as int, c as int);
                            }
                            match json_to_element(&items[c]) {
                                Some(el) => {
                                    proof {
                                        lemma_elems_view_push(content@, el);
                                    }
                                    content.push(el);
                                },
                                None => {
                                    proof {
                                        lemma_elems_of_none(iv, c as int + 1, nc as int);
                                        lemma_msg_fields_none(fv, i as int + 1, n as int);
                                    }
                                    return Err(
                                        AppError::SerializationError(
                                            String::from_str("malformed element content"),
                                        ),
                                    );
                                },
                            }
                            c = c + 1;
                        }
                    },
                    _ => {
                        proof {
                            lemma_msg_fields_none(fv, i as int + 1, n as int);
                        }
                        return Err(
                            AppError::SerializationError(
                                String::from_str("content is not an array"),
                            ),
                        );
                    },
                }
            } else if *name == k_css_rules {
                if name_seen(fields, i, name) {
                    proof {
                        lemma_msg_fields_none(fv, i as int + 1, n as int);
                    }
                    return Err(
                        AppError::SerializationError(
                            String::from_str("duplicate field in envelope"),
                        ),
                    );
                }
                match value {
                    Json::Null => (),
                    Json::Obj(rule_fields) => {
                        proof {
                            lemma_fields_view_len(rule_fields@, rule_fields@.len() as int);
                        }
                        match json_to_css(rule_fields) {
                            Some(rules) => {
                                css_rules = Some(rules);
                            },
                            None => {
                                proof {
                                    lemma_msg_fields_none(fv, i as int + 1, n as int);
                                }
                                return Err(
                                    AppError::SerializationError(
                                        String::from_str("malformed css rules"),
                                    ),
                                );
                            },
                        }
                    },
                    _ => {
                        proof {
                            lemma_msg_fields_none(fv, i as int + 1, n as int);
                        }
                        return Err(
                            AppError::SerializationError(
                                String::from_str("css_rules is not an object"),
                            ),
                        );
                    },
                }
            } else if *name == k_path {
                if name_seen(fields, i, name) {
                    proof {
                        lemma_msg_fields_none(fv, i as int + 1, n as int);
                    }
                    return Err(
                        AppError::SerializationError(
                            String::from_str("duplicate field in envelope"),
                        ),
                    );
                }
                match opt_string_field(value) {
                    Some(t) => {
                        path = t;
                    },
                    None => {
                        proof {
                            lemma_msg_fields_none(fv, i as int + 1, n as int);
                        }
                        return Err(
                            AppError::SerializationError(String::from_str("path is not a string")),
                        );
                    },
                }
            } else if *name == k_server_public_key {
                if name_seen(fields, i, name) {
                    proof {
                        lemma_msg_fields_none(fv, i as int + 1, n as int);
                    }
                    return Err(
                        AppError::SerializationError(
                            String::from_str("duplicate field in envelope"),
                        ),
                    );
                }
                match opt_string_field(value) {
                    Some(t) => {
                        server_public_key = t;
                    },
                    None => {
                        proof {
                            lemma_msg_fields_none(fv, i as int + 1, n as int);
                        }
                        return Err(
                            AppError::SerializationError(
                                String::from_str("server_public_key is not a string"),
                            ),
                        );
                    },
                }
            } else if *name == k_encrypted_payload {
                if name_seen(fields, i, name) {
                    proof {
                        lemma_msg_fields_none(fv, i as int + 1, n as int);
                    }
                    return Err(
                        AppError::SerializationError(
                            String::from_str("duplicate field in envelope"),
                        ),
                    );
                }
                match opt_string_field(value) {
                    Some(t) => {
                        encrypted_payload = t;
                    },
                    None => {
                        proof {
                            lemma_msg_fields_none(fv, i as int + 1, n as int);
                        }
                        return Err(
                            AppError::SerializationError(
                                String::from_str("encrypted_payload is not a string"),
                            ),
                        );
                    },
                }
            } else if *name == k_nonce {
                if name_seen(fields, i, name) {
                    proof {
                        lemma_msg_fields_none(fv, i as int + 1, n as int);
                    }
                    return Err(
                        AppError::SerializationError(
                            String::from_str("duplicate field in envelope"),
                        ),
                    );
                }
                match opt_string_field(value) {
                    Some(t) => {
                        nonce = t;
                    },
                    None => {
                        proof {
                            lemma_msg_fields_none(fv, i as int + 1, n as int);
                        }
                        return Err(
                            AppError::SerializationError(String::from_str("nonce is not a string")),
                        );
                    },
                }
            } else if *name == k_url {
                if name_seen(fields, i, name) {
                    proof {
                        lemma_msg_fields_none(fv, i as int + 1, n as int);
                    }
                    return Err(
                        AppError::SerializationError(
                            String::from_str("duplicate field in envelope"),
                        ),
                    );
                }
                match opt_string_field(value) {
                    Some(t) => {
                        url = t;
                    },
                    None => {
                        proof {
                            lemma_msg_fields_none(fv, i as int + 1, n as int);
                        }
                        return Err(
                            AppError::SerializationError(String::from_str("url is not a string")),
                        );
                    },
                }
            }
            i = i + 1;
        }
        match action {
            Some(action) => Ok(
                ServerMessage {
                    action,
                    content,
                    path,
                    css_rules,
                    server_public_key,
                    encrypted_payload,
                    nonce,
                    url,
                },
            ),
            None => Err(AppError::SerializationError(String::from_str("envelope has no action"))),
        }
    }
}

} // verus!
