use vstd::prelude::*;

use crate::json::{push_char, str_chars};
use vstd::string::StringExecFns;

verus! {

/// One client-to-server envelope, discriminated on the wire by its `action`
/// field.
#[derive(Debug)]
pub enum ClientMessage {
    Callback { id: String },
    Navigate { path: String },
    PublicKey { key: String },
    EncryptedMessage { data: String, nonce: String },
    ClientError { error: String },
    EventCallback { id: String, event_type: String, event_data: String },
}

/// The hexadecimal digit character of a value below 16.
pub open spec fn spec_hex_char(v: int) -> char {
    if v == 0 {
        '0'
    } else if v == 1 {
        '1'
    } else if v == 2 {
        '2'
    } else if v == 3 {
        '3'
    } else if v == 4 {
        '4'
    } else if v == 5 {
        '5'
    } else if v == 6 {
        '6'
    } else if v == 7 {
        '7'
    } else if v == 8 {
        '8'
    } else if v == 9 {
        '9'
    } else if v == 10 {
        'a'
    } else if v == 11 {
        'b'
    } else if v == 12 {
        'c'
    } else if v == 13 {
        'd'
    } else if v == 14 {
        'e'
    } else {
        'f'
    }
}

/// How one character appears inside a JSON string literal: quote, backslash
/// and the named control characters get their two-character escapes, other
/// control characters a `\u00XX` escape, everything else stands as itself.
pub open spec fn spec_escape_char(c: char) -> Seq<char> {
    if c == '"' {
        "\\\""@
    } else if c == '\\' {
        "\\\\"@
    } else if c == '\n' {
        "\\n"@
    } else if c == '\r' {
        "\\r"@
    } else if c == '\t' {
        "\\t"@
    } else if c == '\u{0008}' {
        "\\b"@
    } else if c == '\u{000C}' {
        "\\f"@
    } else if (c as u32) < 32 {
        "\\u00"@ + seq![
            spec_hex_char((c as u32) as int / 16),
            spec_hex_char((c as u32) as int % 16),
        ]
    } else {
        seq![c]
    }
}

/// The JSON string literal body of a character string.
pub open spec fn spec_escape(s: Seq<char>) -> Seq<char>
    decreases s.len(),
{
    if s.len() == 0 {
        Seq::empty()
    } else {
        spec_escape(s.drop_last()) + spec_escape_char(s.last())
    }
}

/// An escaped string grows at most sixfold.
pub proof fn lemma_spec_escape_len(s: Seq<char>)
    ensures
        spec_escape(s).len() <= 6 * s.len(),
    decreases s.len(),
{
    if s.len() > 0 {
        lemma_spec_escape_len(s.drop_last());
        reveal_strlit("\\\"");
        reveal_strlit("\\\\");
        reveal_strlit("\\n");
        reveal_strlit("\\r");
        reveal_strlit("\\t");
        reveal_strlit("\\b");
        reveal_strlit("\\f");
        reveal_strlit("\\u00");
        assert(spec_escape_char(s.last()).len() <= 6);
    }
}

/// The frame of an encrypted-payload wrapper carrying a base64 ciphertext and
/// nonce.
pub open spec fn spec_encrypted_frame(data: Seq<char>, nonce: Seq<char>) -> Seq<char> {
    "{\"action\":\"encrypted_message\",\"data\":\""@ + spec_escape(data) + "\",\"nonce\":\""@
        + spec_escape(nonce) + "\"}"@
}

/// The exact JSON serialization of one client envelope: the `action` tag
/// first, then the variant's fields in order.
pub open spec fn spec_client_json(m: ClientMessage) -> Seq<char> {
    match m {
        ClientMessage::Callback { id } => "{\"action\":\"callback\",\"id\":\""@ + spec_escape(id@)
            + "\"}"@,
        ClientMessage::Navigate { path } => "{\"action\":\"navigate\",\"path\":\""@ + spec_escape(
            path@,
        ) + "\"}"@,
        ClientMessage::PublicKey { key } => "{\"action\":\"public_key\",\"key\":\""@ + spec_escape(
            key@,
        ) + "\"}"@,
        ClientMessage::EncryptedMessage { data, nonce } => spec_encrypted_frame(data@, nonce@),
        ClientMessage::ClientError { error } => "{\"action\":\"client_error\",\"error\":\""@
            + spec_escape(error@) + "\"}"@,
        ClientMessage::EventCallback { id, event_type, event_data } => {
            "{\"action\":\"event_callback\",\"id\":\""@ + spec_escape(id@)
                + "\",\"event_type\":\""@ + spec_escape(event_type@) + "\",\"event_data\":\""@
                + spec_escape(event_data@) + "\"}"@
        },
    }
}

/// The hexadecimal digit character of a value below 16.
pub(crate) fn hex_char(v: u32) -> (c: char)
    requires
        v < 16,
    ensures
        c == spec_hex_char(v as int),
{
    if v == 0 {
        '0'
    } else if v == 1 {
        '1'
    } else if v == 2 {
        '2'
    } else if v == 3 {
        '3'
    } else if v == 4 {
        '4'
    } else if v == 5 {
        '5'
    } else if v == 6 {
        '6'
    } else if v == 7 {
        '7'
    } else if v == 8 {
        '8'
    } else if v == 9 {
        '9'
    } else if v == 10 {
        'a'
    } else if v == 11 {
        'b'
    } else if v == 12 {
        'c'
    } else if v == 13 {
        'd'
    } else if v == 14 {
        'e'
    } else {
        'f'
    }
}

/// Appends the escaped body of `s` to `out`.
pub(crate) fn append_escaped(out: &mut String, s: &String)
    ensures
        final(out)@ =~= old(out)@ + spec_escape(s@),
{
    let cs: Vec<char> = str_chars(s.as_str());
    let n: usize = cs.len();
    let mut i: usize = 0;
    proof {
        assert(s@.take(0) =~= Seq::<char>::empty());
    }
    while i < n
        invariant
            n == cs@.len(),
            cs@ == s@,
            i <= n,
            out@ =~= old(out)@ + spec_escape(s@.take(i as int)),
        decreases n - i,
    {
        proof {
            assert(s@.take(i as int + 1).drop_last() =~= s@.take(i as int));
            assert(s@.take(i as int + 1).last() == s@[i as int]);
        }
        let c: char = cs[i];
        if c == '"' {
            out.append("\\\"");
        } else if c == '\\' {
            out.append("\\\\");
        } else if c == '\n' {
            out.append("\\n");
        } else if c == '\r' {
            out.append("\\r");
        } else if c == '\t' {
            out.append("\\t");
        } else if c == '\u{0008}' {
            out.append("\\b");
        } else if c == '\u{000C}' {
            out.append("\\f");
        } else if (c as u32) < 32 {
            out.append("\\u00");
            let u: u32 = c as u32;
            push_char(out, hex_char(u / 16));
            push_char(out, hex_char(u % 16));
            proof {
                assert(out@ =~= old(out)@ + spec_escape(s@.take(i as int)) + spec_escape_char(c));
            }
        } else {
            push_char(out, c);
            proof {
                assert(spec_escape_char(c) =~= seq![c]);
            }
        }
        i = i + 1;
    }
    proof {
        assert(s@.take(n as int) =~= s@);
    }
}

impl ClientMessage {
    /// The exact JSON frame of this envelope.
    pub fn to_json(&self) -> (r: String)
        ensures
            r@ =~= spec_client_json(*self),
    {
        match self {
            ClientMessage::Callback { id } => {
                let mut out: String = String::from_str("{\"action\":\"callback\",\"id\":\"");
                append_escaped(&mut out, id);
                out.append("\"}");
                out
            },
            ClientMessage::Navigate { path } => {
                let mut out: String = String::from_str("{\"action\":\"navigate\",\"path\":\"");
                append_escaped(&mut out, path);
                out.append("\"}");
                out
            },
            ClientMessage::PublicKey { key } => {
                let mut out: String = String::from_str("{\"action\":\"public_key\",\"key\":\"");
                append_escaped(&mut out, key);
                out.append("\"}");
                out
            },
            ClientMessage::EncryptedMessage { data, nonce } => {
                let mut out: String = String::from_str(
                    "{\"action\":\"encrypted_message\",\"data\":\"",
                );
                append_escaped(&mut out, data);
                out.append("\",\"nonce\":\"");
                append_escaped(&mut out, nonce);
                out.append("\"}");
                out
            },
            ClientMessage::ClientError { error } => {
                let mut out: String = String::from_str("{\"action\":\"client_error\",\"error\":\"");
                append_escaped(&mut out, error);
                out.append("\"}");
                out
            },
            ClientMessage::EventCallback { id, event_type, event_data } => {
                let mut out: String = String::from_str(
                    "{\"action\":\"event_callback\",\"id\":\"",
                );
                append_escaped(&mut out, id);
                out.append("\",\"event_type\":\"");
                append_escaped(&mut out, event_type);
                out.append("\",\"event_data\":\"");
                append_escaped(&mut out, event_data);
                out.append("\"}");
                out
            },
        }
    }
}

} // verus!
