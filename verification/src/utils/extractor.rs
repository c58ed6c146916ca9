use vstd::prelude::*;

use crate::connection::messages::client::{hex_char, spec_escape, spec_hex_char};
use vstd::string::StringExecFns;

verus! {

/// The decimal digits of a natural number.
pub open spec fn spec_udec(n: nat) -> Seq<char>
    decreases n,
{
    if n < 10 {
        seq![spec_hex_char(n as int)]
    } else {
        spec_udec(n / 10) + seq![spec_hex_char((n % 10) as int)]
    }
}

/// The decimal text of an integer, with a sign when negative.
pub open spec fn spec_idec(n: int) -> Seq<char> {
    if n < 0 {
        seq!['-'] + spec_udec((-n) as nat)
    } else {
        spec_udec(n as nat)
    }
}

/// The decimal text of a natural number.
fn u64_to_string(n: u64) -> (r: String)
    ensures
        r@ =~= spec_udec(n as nat),
    decreases n,
{
    if n < 10 {
        let mut r: String = String::new();
        crate::json::push_char(&mut r, hex_char(n as u32));
        r
    } else {
        let mut r: String = u64_to_string(n / 10);
        crate::json::push_char(&mut r, hex_char((n % 10) as u32));
        r
    }
}

/// The decimal text of an integer.
fn i32_to_string(n: i32) -> (r: String)
    ensures
        r@ =~= spec_idec(n as int),
{
    if n < 0 {
        let magnitude: u64 = (-(n as i64)) as u64;
        let mut r: String = String::from_str("-");
        proof {
            reveal_strlit("-");
            assert(r@ =~= seq!['-']);
        }
        r.append(u64_to_string(magnitude).as_str());
        r
    } else {
        u64_to_string(n as u64)
    }
}

/// A JSON boolean literal.
pub open spec fn spec_bool_text(b: bool) -> Seq<char> {
    if b {
        "true"@
    } else {
        "false"@
    }
}

/// The native-widget state read from the target of an input or change event:
/// what the interaction payload carries for each kind of form control.
#[derive(Debug)]
pub enum InputTarget {
    Input { value: String, checked: bool },
    Select { value: String, selected_index: i32 },
    TextArea { value: String },
}

/// One submitted form field: its text, or a checkbox's state.
#[derive(Debug)]
pub enum FormValue {
    Text(String),
    Checked(bool),
}

/// The JSON text of one form field's value.
pub open spec fn spec_form_value(v: FormValue) -> Seq<char> {
    match v {
        FormValue::Text(s) => "\""@ + spec_escape(s@) + "\""@,
        FormValue::Checked(b) => spec_bool_text(b),
    }
}

/// Replaces the first field of that name — a later control of the same name
/// wins, at the first occurrence's position — or appends a new field.
pub open spec fn spec_form_insert(
    acc: Seq<(String, FormValue)>,
    name: String,
    v: FormValue,
) -> Seq<(String, FormValue)>
    decreases acc.len(),
{
    if acc.len() == 0 {
        seq![(name, v)]
    } else if acc[0].0@ == name@ {
        seq![(acc[0].0, v)] + acc.drop_first()
    } else {
        seq![acc[0]] + spec_form_insert(acc.drop_first(), name, v)
    }
}

/// The first `n` submitted fields with later duplicates folded in, in
/// first-occurrence order.
pub open spec fn spec_form_dedup(fields: Seq<(String, FormValue)>, n: int) -> Seq<
    (String, FormValue),
>
    decreases n,
{
    if n <= 0 || n > fields.len() {
        Seq::empty()
    } else {
        spec_form_insert(spec_form_dedup(fields, n - 1), fields[n - 1].0, fields[n - 1].1)
    }
}

/// The JSON object body of a field list, in field order.
pub open spec fn spec_form_fields(fields: Seq<(String, FormValue)>) -> Seq<char>
    decreases fields.len(),
{
    if fields.len() == 0 {
        Seq::empty()
    } else if fields.len() == 1 {
        "\""@ + spec_escape(fields[0].0@) + "\":"@ + spec_form_value(fields[0].1)
    } else {
        spec_form_fields(fields.drop_last()) + ",\""@ + spec_escape(fields.last().0@) + "\":"@
            + spec_form_value(fields.last().1)
    }
}

/// When the name sits first at `i`, folding in replaces exactly that field.
proof fn lemma_form_insert_found(acc: Seq<(String, FormValue)>, name: String, v: FormValue, i: int)
    requires
        0 <= i < acc.len(),
        forall|m: int| 0 <= m < i ==> (#[trigger] acc[m]).0@ != name@,
        acc[i].0@ == name@,
    ensures
        spec_form_insert(acc, name, v) =~= acc.update(i, (acc[i].0, v)),
    decreases i,
{
    if i == 0 {
        assert(spec_form_insert(acc, name, v) =~= seq![(acc[0].0, v)] + acc.drop_first());
        assert(seq![(acc[0].0, v)] + acc.drop_first() =~= acc.update(0, (acc[0].0, v)));
    } else {
        assert(acc[0].0@ != name@);
        let t = acc.drop_first();
        assert forall|m: int| 0 <= m < i - 1 implies (#[trigger] t[m]).0@ != name@ by {
            assert(t[m] == acc[m + 1]);
        }
        assert(t[i - 1] == acc[i]);
        lemma_form_insert_found(t, name, v, i - 1);
        assert(spec_form_insert(acc, name, v) =~= seq![acc[0]] + t.update(i - 1, (acc[i].0, v)));
        assert(seq![acc[0]] + t.update(i - 1, (acc[i].0, v)) =~= acc.update(i, (acc[i].0, v)));
    }
}

/// When the name occurs nowhere, folding in appends.
proof fn lemma_form_insert_absent(acc: Seq<(String, FormValue)>, name: String, v: FormValue)
    requires
        forall|m: int| 0 <= m < acc.len() ==> (#[trigger] acc[m]).0@ != name@,
    ensures
        spec_form_insert(acc, name, v) =~= acc.push((name, v)),
    decreases acc.len(),
{
    if acc.len() > 0 {
        let t = acc.drop_first();
        assert forall|m: int| 0 <= m < t.len() implies (#[trigger] t[m]).0@ != name@ by {
            assert(t[m] == acc[m + 1]);
        }
        lemma_form_insert_absent(t, name, v);
        assert(spec_form_insert(acc, name, v) =~= seq![acc[0]] + t.push((name, v)));
        assert(seq![acc[0]] + t.push((name, v)) =~= acc.push((name, v)));
    }
}

/// An exact copy of one field value.
fn form_value_dup(v: &FormValue) -> (r: FormValue)
    ensures
        r == *v,
{
    match v {
        FormValue::Text(s) => FormValue::Text(s.clone()),
        FormValue::Checked(b) => FormValue::Checked(*b),
    }
}

/// Folds one submitted field in: a later control of the same name replaces
/// the earlier value.
fn form_insert(fields: &mut Vec<(String, FormValue)>, name: String, v: FormValue)
    ensures
        final(fields)@ =~= spec_form_insert(old(fields)@, name, v),
{
    let ghost f0: Seq<(String, FormValue)> = fields@;
    let n: usize = fields.len();
    let mut i: usize = 0;
    while i < n
        invariant
            n == f0.len(),
            f0 == old(fields)@,
            fields@ == f0,
            i <= n,
            forall|m: int| 0 <= m < i ==> (#[trigger] f0[m]).0@ != name@,
        decreases n - i,
    {
        if fields[i].0 == name {
            proof {
                lemma_form_insert_found(f0, name, v, i as int);
            }
            let kept: String = fields[i].0.clone();
            fields.set(i, (kept, v));
            proof {
                assert(fields@ =~= f0.update(i as int, (f0[i as int].0, v)));
            }
            return ;
        }
        i = i + 1;
    }
    proof {
        lemma_form_insert_absent(f0, name, v);
    }
    fields.push((name, v));
}

/// Builds the structured event payloads that interaction envelopes carry.
/// Reading the native widgets is the document side's work; these functions
/// turn the plain values it read into the exact JSON text.
pub struct EventDataExtractor {}

impl EventDataExtractor {
    /// The payload of an input or change event, by the kind of control.
    pub fn extract_input_data(target: &InputTarget) -> (r: String)
        ensures
            r@ =~= match *target {
                InputTarget::Input { value, checked } => "{\"checked\":"@ + spec_bool_text(checked)
                    + ",\"value\":\""@ + spec_escape(value@) + "\"}"@,
                InputTarget::Select { value, selected_index } => "{\"selectedIndex\":"@ + spec_idec(
                    selected_index as int,
                ) + ",\"value\":\""@ + spec_escape(value@) + "\"}"@,
                InputTarget::TextArea { value } => "{\"value\":\""@ + spec_escape(value@) + "\"}"@,
            },
    {
        match target {
            InputTarget::Input { value, checked } => {
                let mut out: String = String::from_str("{\"checked\":");
                if *checked {
                    out.append("true");
                } else {
                    out.append("false");
                }
                out.append(",\"value\":\"");
                append_escaped_str(&mut out, value);
                out.append("\"}");
                out
            },
            InputTarget::Select { value, selected_index } => {
                let mut out: String = String::from_str("{\"selectedIndex\":");
                out.append(i32_to_string(*selected_index).as_str());
                out.append(",\"value\":\"");
                append_escaped_str(&mut out, value);
                out.append("\"}");
                out
            },
            InputTarget::TextArea { value } => {
                let mut out: String = String::from_str("{\"value\":\"");
                append_escaped_str(&mut out, value);
                out.append("\"}");
                out
            },
        }
    }

    /// The payload of a keyboard event: key, code and the modifier states.
    pub fn extract_keyboard_data(
        key: &String,
        code: &String,
        ctrl_key: bool,
        alt_key: bool,
        shift_key: bool,
        meta_key: bool,
    ) -> (r: String)
        ensures
            r@ =~= "{\"altKey\":"@ + spec_bool_text(alt_key) + ",\"code\":\""@ + spec_escape(code@)
                + "\",\"ctrlKey\":"@ + spec_bool_text(ctrl_key) + ",\"key\":\""@ + spec_escape(
                key@,
            ) + "\",\"metaKey\":"@ + spec_bool_text(meta_key) + ",\"shiftKey\":"@ + spec_bool_text(
                shift_key,
            ) + "}"@,
    {
        let mut out: String = String::from_str("{\"altKey\":");
        append_bool(&mut out, alt_key);
        out.append(",\"code\":\"");
        append_escaped_str(&mut out, code);
        out.append("\",\"ctrlKey\":");
        append_bool(&mut out, ctrl_key);
        out.append(",\"key\":\"");
        append_escaped_str(&mut out, key);
        out.append("\",\"metaKey\":");
        append_bool(&mut out, meta_key);
        out.append(",\"shiftKey\":");
        append_bool(&mut out, shift_key);
        out.append("}");
        out
    }

    /// The payload of a pointer event: buttons and coordinates.
    pub fn extract_mouse_data(client_x: i32, client_y: i32, button: i32, buttons: i32) -> (r:
        String)
        ensures
            r@ =~= "{\"button\":"@ + spec_idec(button as int) + ",\"buttons\":"@ + spec_idec(
                buttons as int,
            ) + ",\"clientX\":"@ + spec_idec(client_x as int) + ",\"clientY\":"@ + spec_idec(
                client_y as int,
            ) + "}"@,
    {
        let mut out: String = String::from_str("{\"button\":");
        out.append(i32_to_string(button).as_str());
        out.append(",\"buttons\":");
        out.append(i32_to_string(buttons).as_str());
        out.append(",\"clientX\":");
        out.append(i32_to_string(client_x).as_str());
        out.append(",\"clientY\":");
        out.append(i32_to_string(client_y).as_str());
        out.append("}");
        out
    }

    /// The payload of a form submission: each named field's value in
    /// first-occurrence order, a later control of the same name replacing
    /// the earlier value.
    pub fn extract_form_data(fields: &Vec<(String, FormValue)>) -> (r: String)
        ensures
            r@ =~= "{"@ + spec_form_fields(spec_form_dedup(fields@, fields@.len() as int))
                + "}"@,
    {
        let mut deduped: Vec<(String, FormValue)> = Vec::new();
        let n: usize = fields.len();
        let mut i: usize = 0;
        proof {
            assert(deduped@ =~= spec_form_dedup(fields@, 0));
        }
        while i < n
            invariant
                n == fields@.len(),
                i <= n,
                deduped@ =~= spec_form_dedup(fields@, i as int),
            decreases n - i,
        {
            form_insert(&mut deduped, fields[i].0.clone(), form_value_dup(&fields[i].1));
            i = i + 1;
        }

        let mut out: String = String::from_str("{");
        let nd: usize = deduped.len();
        let mut j: usize = 0;
        proof {
            assert(deduped@.take(0) =~= Seq::<(String, FormValue)>::empty());
        }
        while j < nd
            invariant
                nd == deduped@.len(),
                deduped@ == spec_form_dedup(fields@, fields@.len() as int),
                j <= nd,
                out@ =~= "{"@ + spec_form_fields(deduped@.take(j as int)),
            decreases nd - j,
        {
            proof {
                assert(deduped@.take(j as int + 1).drop_last() =~= deduped@.take(j as int));
                assert(deduped@.take(j as int + 1).last() == deduped@[j as int]);
            }
            if j > 0 {
                out.append(",\"");
            } else {
                out.append("\"");
            }
            append_escaped_str(&mut out, &deduped[j].0);
            out.append("\":");
            match &deduped[j].1 {
                FormValue::Text(s) => {
                    out.append("\"");
                    append_escaped_str(&mut out, s);
                    out.append("\"");
                },
                FormValue::Checked(b) => {
                    append_bool(&mut out, *b);
                },
            }
            j = j + 1;
        }
        proof {
            assert(deduped@.take(nd as int) =~= deduped@);
        }
        out.append("}");
        out
    }
}

/// Appends a JSON boolean literal.
fn append_bool(out: &mut String, b: bool)
    ensures
        final(out)@ == old(out)@ + spec_bool_text(b),
{
    if b {
        out.append("true");
    } else {
        out.append("false");
    }
}

/// Appends the escaped body of `s`.
fn append_escaped_str(out: &mut String, s: &String)
    ensures
        final(out)@ =~= old(out)@ + spec_escape(s@),
{
    crate::connection::messages::client::append_escaped(out, s)
}

} // verus!
