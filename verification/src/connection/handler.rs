use vstd::prelude::*;

use crate::connection::crypto::{b64_dec_of, spec_decrypt, spec_session_key, Crypto};
use crate::connection::messages::client::ClientMessage;
use crate::connection::messages::server::{
    elems_view_all, lemma_css_text_view, lemma_elems_view_len, msg_view, spec_css_text_v,
    spec_server_message, ServerMessage, SpecServerMessage,
};
use crate::error::AppError;
use crate::utils::formatter::format_wasm_traceback;
use crate::vdom::content::{elem_eq, opt_view};
use crate::vdom::diff::spec_diff;
use crate::vdom::ops::ops_view;
use crate::vdom::{RenderPlan, VirtualDom};
use vstd::string::StringExecFns;

verus! {

broadcast use vstd::std_specs::vec::axiom_spec_len;

/// Everything handling one inbound frame asks of the caller: envelopes to
/// send back over the encrypted path, a render plan to apply, a location to
/// redirect to.
pub struct HandlerOutcome {
    pub outbound: Vec<ClientMessage>,
    pub plan: Option<RenderPlan>,
    pub redirect: Option<String>,
}

/// The outcome shape of a dropped frame: nothing sent, nothing rendered,
/// nothing followed.
pub open spec fn outcome_empty(r: HandlerOutcome) -> bool {
    r.outbound@.len() == 0 && r.plan is None && r.redirect is None
}

/// The outcome shape of a malformed frame: exactly one client-error report,
/// nothing rendered, nothing followed.
pub open spec fn outcome_error_report(r: HandlerOutcome) -> bool {
    &&& r.outbound@.len() == 1
    &&& r.outbound@[0] matches ClientMessage::ClientError { .. }
    &&& r.plan is None
    &&& r.redirect is None
}

/// The report's diagnostic is short — the decode errors it formats are fixed
/// texts — so the report always fits the encrypted path.
pub open spec fn error_report_small(r: HandlerOutcome) -> bool {
    match r.outbound@[0] {
        ClientMessage::ClientError { error } => error@.len() <= 4096,
        _ => true,
    }
}

/// What a render instruction `m` makes of the reconciler: the plan exists
/// and is `render_page`'s result — the full/incremental selection, the exact
/// operation list, the new content carried as `roots`, the candidate
/// snapshot, the stringified rules and the history decision. The stored
/// snapshot itself is untouched until the plan is applied and committed.
pub open spec fn render_post(
    m: SpecServerMessage,
    v0: VirtualDom,
    plan_opt: Option<RenderPlan>,
    current: Seq<char>,
) -> bool {
    match plan_opt {
        Some(plan) => {
            &&& plan.full == (v0.previous_vdom is None || m.content.len() != 1)
            &&& elems_view_all(plan.roots@) == m.content
            &&& plan.roots@.len() == m.content.len()
            &&& (plan.full ==> plan.ops@.len() == 0)
            &&& (!plan.full ==> match v0.previous_vdom {
                Some(prev) => ops_view(plan.ops@) =~= spec_diff(
                    prev,
                    plan.roots@[0],
                    seq![0usize],
                    seq![0usize],
                ),
                None => false,
            })
            &&& (m.content.len() == 0 ==> plan.snapshot is None)
            &&& (m.content.len() > 0 ==> match plan.snapshot {
                Some(c) => elem_eq(c, plan.roots@[0]),
                None => false,
            })
            &&& match m.css_rules {
                Some(rules) => match plan.css_text {
                    Some(t) => t@ =~= spec_css_text_v(rules),
                    None => false,
                },
                None => plan.css_text is None,
            }
            &&& match m.path {
                Some(p) => if p != current {
                    opt_view(plan.history_push) == Some(p)
                } else {
                    plan.history_push is None
                },
                None => plan.history_push is None,
            }
        },
        None => false,
    }
}

/// Everything handling one decoded envelope `m` does, relating the states
/// before (`c0`, `v0`) and after (`c1`, `v1`) and the outcome `r`.
///
/// A present `server_public_key` never renders and answers with exactly one
/// navigation envelope for the current path once derivation succeeds, none
/// when the key is invalid. A present `encrypted_payload` with `nonce` is
/// decrypted under the session key: a failed decryption drops the frame, a
/// decrypted text that is no envelope is answered with exactly one
/// client-error report, an inner render instruction yields the render plan,
/// an inner redirect yields its url, anything else is ignored. Otherwise a
/// `render_page` action yields the render plan and any other action is
/// ignored.
pub open spec fn spec_handle_post(
    m: SpecServerMessage,
    c0: Crypto,
    v0: VirtualDom,
    c1: Crypto,
    r: HandlerOutcome,
    current: Seq<char>,
) -> bool {
    match m.server_public_key {
        Some(k) => {
            &&& r.plan is None
            &&& r.redirect is None
            &&& c1.x25519_secret == c0.x25519_secret
            &&& c1.x25519_public == c0.x25519_public
            &&& match b64_dec_of(k) {
                Some(peer) => if peer.len() == 32 {
                    &&& c1.established()
                    &&& c1.session_key() == spec_session_key(c0.x25519_secret@, peer)
                    &&& r.outbound@.len() == 1
                    &&& match r.outbound@[0] {
                        ClientMessage::Navigate { path } => path@ == current,
                        _ => false,
                    }
                } else {
                    r.outbound@.len() == 0 && c1.aes_key == c0.aes_key
                },
                None => r.outbound@.len() == 0 && c1.aes_key == c0.aes_key,
            }
        },
        None => {
            &&& c1 == c0
            &&& match (m.encrypted_payload, m.nonce) {
                (Some(p), Some(nn)) => {
                    &&& (!c0.established() ==> outcome_empty(r))
                    &&& (c0.established() ==> match spec_decrypt(c0.session_key(), p, nn) {
                        None => outcome_empty(r),
                        Some(pt) => match spec_server_message(pt) {
                            None => outcome_error_report(r) && error_report_small(r),
                            Some(inner) => {
                                &&& r.outbound@.len() == 0
                                &&& if inner.action == "render_page"@ {
                                    render_post(inner, v0, r.plan, current) && r.redirect is None
                                } else if inner.action == "redirect"@ {
                                    r.plan is None && opt_view(r.redirect) == inner.url
                                } else {
                                    outcome_empty(r)
                                }
                            },
                        },
                    })
                },
                _ => {
                    &&& r.outbound@.len() == 0
                    &&& r.redirect is None
                    &&& if m.action == "render_page"@ {
                        render_post(m, v0, r.plan, current)
                    } else {
                        r.plan is None
                    }
                },
            }
        },
    }
}

/// Dispatches inbound envelopes: key exchange, encrypted payloads, render and
/// redirect instructions.
pub struct MessageHandler {}

impl MessageHandler {
    /// The outcome of a frame that did not decode: exactly one client-error
    /// report carrying the formatted diagnostic, no render, no redirect.
    pub fn handle_malformed(err: &AppError) -> (r: HandlerOutcome)
        ensures
            outcome_error_report(r),
            match *err {
                AppError::SerializationError(s2) => s2@.len() <= 64 ==> error_report_small(r),
                _ => true,
            },
    {
        proof {
            reveal_strlit("Serialization error: ");
        }
        let msg: String = err.message();
        let formatted: String = format_wasm_traceback(msg.as_str());
        let mut outbound: Vec<ClientMessage> = Vec::new();
        outbound.push(ClientMessage::ClientError { error: formatted });
        HandlerOutcome { outbound, plan: None, redirect: None }
    }

    /// Handles one decoded envelope, exactly as `spec_handle_post` says of
    /// its mathematical value.
    pub fn handle_message(
        crypto: &mut Crypto,
        vdom: &VirtualDom,
        msg: ServerMessage,
        current_path: &String,
    ) -> (r: HandlerOutcome)
        requires
            old(crypto).wf(),
        ensures
            final(crypto).wf(),
            r.outbound@.len() <= 1,
            spec_handle_post(
                msg_view(msg),
                *old(crypto),
                *vdom,
                *final(crypto),
                r,
                current_path@,
            ),
    {
        match &msg.server_public_key {
            Some(server_public_key_b64) => {
                let outcome: Result<(), AppError> = crypto.derive_shared_secret(
                    server_public_key_b64.as_str(),
                );
                let mut outbound: Vec<ClientMessage> = Vec::new();
                match outcome {
                    Ok(()) => {
                        outbound.push(ClientMessage::Navigate { path: current_path.clone() });
                    },
                    Err(_) => (),
                }
                return HandlerOutcome { outbound, plan: None, redirect: None };
            },
            None => (),
        }
        match (&msg.encrypted_payload, &msg.nonce) {
            (Some(encrypted_payload_b64), Some(nonce_b64)) => {
                let decrypted: Option<String> = crypto.decrypt(
                    encrypted_payload_b64.as_str(),
                    nonce_b64.as_str(),
                );
                match decrypted {
                    Some(decrypted_str) => {
                        match ServerMessage::from_json(decrypted_str.as_str()) {
                            Ok(inner_msg) => {
                                let render_page: String = String::from_str("render_page");
                                let redirect_action: String = String::from_str("redirect");
                                if inner_msg.action == render_page {
                                    proof {
                                        lemma_render_page_inputs(&inner_msg);
                                    }
                                    let plan: RenderPlan = Self::build_plan(
                                        vdom,
                                        inner_msg,
                                        current_path,
                                    );
                                    HandlerOutcome {
                                        outbound: Vec::new(),
                                        plan: Some(plan),
                                        redirect: None,
                                    }
                                } else if inner_msg.action == redirect_action {
                                    HandlerOutcome {
                                        outbound: Vec::new(),
                                        plan: None,
                                        redirect: inner_msg.url,
                                    }
                                } else {
                                    HandlerOutcome {
                                        outbound: Vec::new(),
                                        plan: None,
                                        redirect: None,
                                    }
                                }
                            },
                            Err(e) => {
                                let out: HandlerOutcome = Self::handle_malformed(&e);
                                out
                            },
                        }
                    },
                    None => HandlerOutcome { outbound: Vec::new(), plan: None, redirect: None },
                }
            },
            _ => {
                let render_page: String = String::from_str("render_page");
                if msg.action == render_page {
                    proof {
                        lemma_render_page_inputs(&msg);
                    }
                    let plan: RenderPlan = Self::build_plan(vdom, msg, current_path);
                    HandlerOutcome { outbound: Vec::new(), plan: Some(plan), redirect: None }
                } else {
                    HandlerOutcome { outbound: Vec::new(), plan: None, redirect: None }
                }
            },
        }
    }

    /// Runs the reconciler on one render instruction and establishes
    /// `render_post` for it.
    fn build_plan(vdom: &VirtualDom, msg: ServerMessage, current_path: &String) -> (plan:
        RenderPlan)
        ensures
            render_post(msg_view(msg), *vdom, Some(plan), current_path@),
    {
        proof {
            lemma_elems_view_len(msg.content@, msg.content@.len() as int);
            match &msg.css_rules {
                Some(rules) => {
                    lemma_css_text_view(rules@);
                },
                None => (),
            }
        }
        vdom.render_page(msg.content, msg.path, msg.css_rules, current_path)
    }
}

/// The mathematical value of a render instruction's content pins its length.
proof fn lemma_render_page_inputs(msg: &ServerMessage)
    ensures
        elems_view_all(msg.content@).len() == msg.content@.len(),
{
    lemma_elems_view_len(msg.content@, msg.content@.len() as int);
}

impl MessageHandler {
    /// Decodes one inbound frame and handles it. A frame that does not
    /// decode is answered with exactly one client-error report and touches
    /// neither the session nor the snapshot; a frame that decodes gets
    /// `spec_handle_post` on its decoded value.
    pub fn handle_frame(
        crypto: &mut Crypto,
        vdom: &VirtualDom,
        frame: &str,
        current_path: &String,
    ) -> (r: HandlerOutcome)
        requires
            old(crypto).wf(),
        ensures
            final(crypto).wf(),
            r.outbound@.len() <= 1,
            match spec_server_message(frame@) {
                None => outcome_error_report(r) && error_report_small(r) && *final(crypto)
                    == *old(crypto),
                Some(m) => spec_handle_post(
                    m,
                    *old(crypto),
                    *vdom,
                    *final(crypto),
                    r,
                    current_path@,
                ),
            },
    {
        match ServerMessage::from_json(frame) {
            Ok(msg) => Self::handle_message(crypto, vdom, msg, current_path),
            Err(e) => {
                let out: HandlerOutcome = Self::handle_malformed(&e);
                out
            },
        }
    }
}

} // verus!
