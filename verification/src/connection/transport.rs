use vstd::prelude::*;

use crate::connection::crypto::{b64_dec_of, b64_of, spec_decrypt, spec_session_key, Crypto};
use crate::connection::handler::{render_post, HandlerOutcome, MessageHandler};
use crate::connection::messages::client::{spec_client_json, spec_encrypted_frame, spec_escape, ClientMessage};
use crate::connection::messages::server::spec_server_message;
use crate::connection::messaging::Messaging;
use crate::vdom::{RenderPlan, VirtualDom};

verus! {

/// The life of one transport connection: opening, open, or lost and waiting
/// for the reconnect delay.
#[derive(Debug, PartialEq, Eq, Structural)]
pub enum ConnectionState {
    Connecting,
    Open,
    Closed,
}

/// One event the surrounding event loop hands in: the connection opened or
/// closed, the user navigated the browser history, or a frame arrived.
#[derive(Debug)]
pub enum ConnectionEvent {
    Opened,
    Closed,
    PopState { path: String },
    Frame { text: String },
}

/// One thing the surrounding event loop must do: send a frame, create a new
/// connection after the delay, apply a render plan to the document, or follow
/// a redirect.
#[derive(Debug)]
pub enum TransportAction {
    SendFrame { frame: String },
    ScheduleReconnect { delay_ms: u32 },
    ApplyRender { plan: RenderPlan },
    FollowRedirect { url: String },
}

/// A frame of the encrypted path whose plaintext, under session key `key`,
/// is exactly `inner`.
pub open spec fn encrypted_frame_for(frame: Seq<char>, key: Seq<u8>, inner: Seq<char>) -> bool {
    exists|d: Seq<char>, n2: Seq<char>|
        frame == #[trigger] spec_encrypted_frame(d, n2) && spec_decrypt(key, d, n2) == Some(inner)
}

/// The navigation envelope's frame for a path.
pub open spec fn navigate_json(path: Seq<char>) -> Seq<char> {
    "{\"action\":\"navigate\",\"path\":\""@ + spec_escape(path) + "\"}"@
}

/// A frame of the encrypted path carrying some client-error report.
pub open spec fn encrypted_error_report(frame: Seq<char>, key: Seq<u8>) -> bool {
    exists|e: Seq<char>|
        encrypted_frame_for(
            frame,
            key,
            "{\"action\":\"client_error\",\"error\":\""@ + (#[trigger] spec_escape(e)) + "\"}"@,
        )
}

/// One client connection's state: the transport phase, the session
/// cryptography, the reconciler, and the endpoint to reconnect to. The event
/// loop owns the socket and the timer; every decision is made here.
pub struct ClientConnection {
    pub state: ConnectionState,
    pub crypto: Crypto,
    pub vdom: VirtualDom,
    pub ws_gateway: String,
}

impl ClientConnection {
    /// A fresh connection towards `server_url`: connecting, no session key,
    /// no render snapshot.
    pub fn new(server_url: &String) -> (r: ClientConnection)
        ensures
            r.crypto.wf(),
            !r.crypto.established(),
            r.state == ConnectionState::Connecting,
            r.vdom.previous_vdom is None,
            r.ws_gateway@ == server_url@,
    {
        ClientConnection {
            state: ConnectionState::Connecting,
            crypto: Crypto::new(),
            vdom: VirtualDom::new(),
            ws_gateway: server_url.clone(),
        }
    }

    /// Advances the connection on one event and says what the event loop must
    /// do.
    ///
    /// Opening sends the clear public-key announcement — the only envelope
    /// ever sent unencrypted. Losing the connection schedules one reconnect
    /// after the fixed one-second delay; the session key is not kept, the
    /// fresh connection re-handshakes. Browser navigation sends exactly one
    /// navigation envelope over the encrypted path, dropped while no session
    /// key exists. A frame is decoded and handled as `spec_handle_post`
    /// says, and the outcome becomes actions: the answer leaves over the
    /// encrypted path, a render plan is handed back to be applied, a redirect
    /// to be followed.
    pub fn on_event(&mut self, event: ConnectionEvent, current_path: &String) -> (r: Vec<
        TransportAction,
    >)
        requires
            old(self).crypto.wf(),
        ensures
            final(self).crypto.wf(),
            final(self).ws_gateway == old(self).ws_gateway,
            match event {
                ConnectionEvent::Opened => {
                    &&& final(self).state == ConnectionState::Open
                    &&& final(self).crypto == old(self).crypto
                    &&& final(self).vdom == old(self).vdom
                    &&& r@.len() == 1
                    &&& match r@[0] {
                        TransportAction::SendFrame { frame } => frame@
                            == "{\"action\":\"public_key\",\"key\":\""@ + spec_escape(
                            b64_of(old(self).crypto.x25519_public@),
                        ) + "\"}"@,
                        _ => false,
                    }
                },
                ConnectionEvent::Closed => {
                    &&& final(self).state == ConnectionState::Closed
                    &&& final(self).crypto == old(self).crypto
                    &&& final(self).vdom == old(self).vdom
                    &&& r@.len() == 1
                    &&& r@[0] == (TransportAction::ScheduleReconnect { delay_ms: 1000u32 })
                },
                ConnectionEvent::PopState { path } => {
                    &&& final(self).state == old(self).state
                    &&& final(self).crypto == old(self).crypto
                    &&& final(self).vdom == old(self).vdom
                    &&& (!old(self).crypto.established() ==> r@.len() == 0)
                    &&& (old(self).crypto.established() ==> {
                        &&& r@.len() <= 1
                        &&& (r@.len() == 1 ==> match r@[0] {
                            TransportAction::SendFrame { frame } => encrypted_frame_for(
                                frame@,
                                old(self).crypto.session_key(),
                                navigate_json(path@),
                            ),
                            _ => false,
                        })
                        &&& (navigate_json(path@).len() <= 0x4000_0000 ==> r@.len() == 1)
                    })
                },
                ConnectionEvent::Frame { text } => {
                    &&& final(self).state == old(self).state
                    &&& final(self).vdom == old(self).vdom
                    &&& match spec_server_message(text@) {
                        None => {
                            &&& final(self).crypto == old(self).crypto
                            &&& (!old(self).crypto.established() ==> r@.len() == 0)
                            &&& (old(self).crypto.established() ==> r@.len() == 1 && match r@[0] {
                                TransportAction::SendFrame { frame } => encrypted_error_report(
                                    frame@,
                                    old(self).crypto.session_key(),
                                ),
                                _ => false,
                            })
                        },
                        Some(m) => match m.server_public_key {
                            Some(k) => {
                                &&& match b64_dec_of(k) {
                                    Some(peer) => if peer.len() == 32 {
                                        &&& final(self).crypto.established()
                                        &&& final(self).crypto.session_key() == spec_session_key(
                                            old(self).crypto.x25519_secret@,
                                            peer,
                                        )
                                        &&& r@.len() <= 1
                                        &&& (r@.len() == 1 ==> match r@[0] {
                                            TransportAction::SendFrame { frame } => encrypted_frame_for(
                                                frame@,
                                                final(self).crypto.session_key(),
                                                navigate_json(current_path@),
                                            ),
                                            _ => false,
                                        })
                                        &&& (navigate_json(current_path@).len() <= 0x4000_0000
                                            ==> r@.len() == 1)
                                    } else {
                                        r@.len() == 0 && final(self).crypto.aes_key == old(
                                            self,
                                        ).crypto.aes_key
                                    },
                                    None => r@.len() == 0 && final(self).crypto.aes_key == old(
                                        self,
                                    ).crypto.aes_key,
                                }
                            },
                            None => {
                                &&& final(self).crypto == old(self).crypto
                                &&& match (m.encrypted_payload, m.nonce) {
                                    (Some(p), Some(nn)) => {
                                        &&& (!old(self).crypto.established() ==> r@.len() == 0)
                                        &&& (old(self).crypto.established() ==> match spec_decrypt(
                                            old(self).crypto.session_key(),
                                            p,
                                            nn,
                                        ) {
                                            None => r@.len() == 0,
                                            Some(pt) => match spec_server_message(pt) {
                                                None => {
                                                    &&& r@.len() == 1
                                                    &&& match r@[0] {
                                                        TransportAction::SendFrame { frame } => encrypted_error_report(
                                                            frame@,
                                                            old(self).crypto.session_key(),
                                                        ),
                                                        _ => false,
                                                    }
                                                },
                                                Some(inner) => {
                                                    if inner.action == "render_page"@ {
                                                        &&& r@.len() == 1
                                                        &&& match r@[0] {
                                                            TransportAction::ApplyRender {
                                                                plan,
                                                            } => render_post(
                                                                inner,
                                                                old(self).vdom,
                                                                Some(plan),
                                                                current_path@,
                                                            ),
                                                            _ => false,
                                                        }
                                                    } else if inner.action == "redirect"@ {
                                                        match inner.url {
                                                            Some(u) => r@.len() == 1
                                                                && match r@[0] {
                                                                TransportAction::FollowRedirect {
                                                                    url,
                                                                } => url@ == u,
                                                                _ => false,
                                                            },
                                                            None => r@.len() == 0,
                                                        }
                                                    } else {
                                                        r@.len() == 0
                                                    }
                                                },
                                            },
                                        })
                                    },
                                    _ => {
                                        if m.action == "render_page"@ {
                                            &&& r@.len() == 1
                                            &&& match r@[0] {
                                                TransportAction::ApplyRender { plan } => render_post(
                                                    m,
                                                    old(self).vdom,
                                                    Some(plan),
                                                    current_path@,
                                                ),
                                                _ => false,
                                            }
                                        } else {
                                            r@.len() == 0
                                        }
                                    },
                                }
                            },
                        },
                    }
                },
            },
    {
        match event {
            ConnectionEvent::Opened => {
                self.state = ConnectionState::Open;
                let key: String = self.crypto.public_key_b64();
                let frame: String = Messaging::send_message(&ClientMessage::PublicKey { key });
                let mut actions: Vec<TransportAction> = Vec::new();
                actions.push(TransportAction::SendFrame { frame });
                actions
            },
            ConnectionEvent::Closed => {
                self.state = ConnectionState::Closed;
                let mut actions: Vec<TransportAction> = Vec::new();
                actions.push(TransportAction::ScheduleReconnect { delay_ms: 1000 });
                actions
            },
            ConnectionEvent::PopState { path } => {
                let message = ClientMessage::Navigate { path };
                let mut actions: Vec<TransportAction> = Vec::new();
                match Messaging::send_encrypted_message(&message, &self.crypto) {
                    Some(frame) => {
                        actions.push(TransportAction::SendFrame { frame });
                    },
                    None => (),
                }
                actions
            },
            ConnectionEvent::Frame { text } => {
                let outcome: HandlerOutcome = MessageHandler::handle_frame(
                    &mut self.crypto,
                    &self.vdom,
                    text.as_str(),
                    current_path,
                );
                let mut actions: Vec<TransportAction> = Vec::new();
                let mut outbound: Vec<ClientMessage> = outcome.outbound;
                if outbound.len() > 0 {
                    match outbound.pop() {
                        Some(message) => {
                            let send_result: Option<String> = Messaging::send_encrypted_message(
                                &message,
                                &self.crypto,
                            );
                            proof {
                                if self.crypto.established() {
                                    match &message {
                                        ClientMessage::ClientError { error } => {
                                            if error@.len() <= 4096 {
                                                reveal_strlit(
                                                    "{\"action\":\"client_error\",\"error\":\"",
                                                );
                                                reveal_strlit("\"}");
                                                crate::connection::messages::client::lemma_spec_escape_len(
                                                    error@,
                                                );
                                                assert(spec_client_json(message).len()
                                                    <= 0x4000_0000);
                                            }
                                        },
                                        _ => (),
                                    }
                                }
                            }
                            match send_result {
                                Some(frame) => {
                                    proof {
                                        if self.crypto.established() {
                                            let kk = self.crypto.session_key();
                                            match message {
                                                ClientMessage::ClientError { error } => {
                                                    let d2 = choose|d: Seq<char>, n2: Seq<char>|
                                                        frame@ == #[trigger] spec_encrypted_frame(
                                                            d,
                                                            n2,
                                                        ) && spec_decrypt(kk, d, n2) == Some(
                                                            spec_client_json(message),
                                                        );
                                                    assert(frame@ == spec_encrypted_frame(
                                                        d2.0,
                                                        d2.1,
                                                    ) && spec_decrypt(kk, d2.0, d2.1) == Some(
                                                        "{\"action\":\"client_error\",\"error\":\""@
                                                            + spec_escape(error@) + "\"}"@,
                                                    ));
                                                    assert(encrypted_error_report(frame@, kk));
                                                },
                                                _ => (),
                                            }
                                        }
                                    }
                                    actions.push(TransportAction::SendFrame { frame });
                                },
                                None => (),
                            }
                        },
                        None => (),
                    }
                }
                match outcome.plan {
                    Some(plan) => {
                        actions.push(TransportAction::ApplyRender { plan });
                    },
                    None => (),
                }
                match outcome.redirect {
                    Some(url) => {
                        actions.push(TransportAction::FollowRedirect { url });
                    },
                    None => (),
                }
                actions
            },
        }
    }

    /// Reports that a render plan has been applied to the document. Only now
    /// is the plan's candidate snapshot installed — a failed application
    /// never reaches this, so the snapshot stays the most recently applied
    /// root.
    pub fn render_applied(&mut self, plan: &RenderPlan)
        ensures
            final(self).state == old(self).state,
            final(self).crypto == old(self).crypto,
            final(self).ws_gateway == old(self).ws_gateway,
            match plan.snapshot {
                Some(c) => match final(self).vdom.previous_vdom {
                    Some(p) => crate::vdom::content::elem_eq(p, c),
                    None => false,
                },
                None => final(self).vdom.previous_vdom is None,
            },
    {
        self.vdom.commit(plan);
    }
}

} // verus!
