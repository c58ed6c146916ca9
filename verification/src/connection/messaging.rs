use vstd::prelude::*;

use crate::connection::crypto::{spec_decrypt, Crypto};
use crate::connection::messages::client::{
    spec_client_json, spec_encrypted_frame, ClientMessage,
};

verus! {

/// Turns outbound envelopes into the frames the transport sends.
pub struct Messaging {}

impl Messaging {
    /// The clear frame of one envelope.
    pub fn send_message(message: &ClientMessage) -> (r: String)
        ensures
            r@ =~= spec_client_json(*message),
    {
        message.to_json()
    }

    /// The frame of one envelope on the encrypted path, or nothing when the
    /// message is dropped. Before a session key is established only the key
    /// announcement leaves, in the clear. With a session key the frame is an
    /// encrypted wrapper whose payload decrypts back to the envelope's own
    /// frame; should encryption itself fail, only the key announcement may
    /// still leave in the clear.
    pub fn send_encrypted_message(message: &ClientMessage, crypto: &Crypto) -> (r: Option<String>)
        requires
            crypto.wf(),
        ensures
            !crypto.established() ==> match *message {
                ClientMessage::PublicKey { .. } => match r {
                    Some(f) => f@ =~= spec_client_json(*message),
                    None => false,
                },
                _ => r is None,
            },
            crypto.established() ==> match r {
                Some(f) => (exists|d: Seq<char>, n2: Seq<char>|
                    f@ == #[trigger] spec_encrypted_frame(d, n2) && spec_decrypt(
                        crypto.session_key(),
                        d,
                        n2,
                    ) == Some(spec_client_json(*message))) || (message matches ClientMessage::PublicKey {
                    ..
                } && f@ =~= spec_client_json(*message)),
                None => true,
            },
            crypto.established() && spec_client_json(*message).len() <= 0x4000_0000 ==> r is Some,
    {
        let established: bool = crypto.aes_key.is_some();
        if !established {
            match message {
                ClientMessage::PublicKey { .. } => Some(Self::send_message(message)),
                _ => None,
            }
        } else {
            let json_str: String = message.to_json();
            match crypto.encrypt(json_str.as_str()) {
                Some(pair) => {
                    let (data, nonce) = pair;
                    let ghost dv: Seq<char> = data@;
                    let ghost nv: Seq<char> = nonce@;
                    let wrapped = ClientMessage::EncryptedMessage { data, nonce };
                    let f: String = Self::send_message(&wrapped);
                    proof {
                        assert(f@ == spec_encrypted_frame(dv, nv));
                        assert(spec_decrypt(crypto.session_key(), dv, nv) == Some(
                            spec_client_json(*message),
                        ));
                    }
                    Some(f)
                },
                None => {
                    match message {
                        ClientMessage::PublicKey { .. } => Some(Self::send_message(message)),
                        _ => None,
                    }
                },
            }
        }
    }
}

} // verus!
