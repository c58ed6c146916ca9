use vstd::prelude::*;
use vstd::string::StringExecFns;

verus! {

/// The websocket endpoint of a transport: what protocol and host of the
/// current location resolve to on the framework's fixed port.
pub open spec fn spec_ws_url(protocol: Seq<char>, hostname: Seq<char>) -> Seq<char> {
    (if protocol == "https:"@ {
        "wss:"@
    } else {
        "ws:"@
    }) + "//"@ + hostname + ":1337"@
}

/// The transport configuration resolved from document metadata, falling back
/// to a URL derived from the page's own location.
#[derive(Debug)]
pub struct MetaConfig {
    pub ws_gateway: String,
}

impl MetaConfig {
    /// Resolves the endpoint from the document's metadata: in development
    /// mode with no explicit gateway the local default; an explicit gateway
    /// as it stands; otherwise the URL derived from the page location.
    pub fn from_document(
        is_dev: bool,
        ws_gateway_val: Option<String>,
        protocol: &String,
        hostname: &String,
    ) -> (r: MetaConfig)
        ensures
            r.ws_gateway@ == if is_dev && ws_gateway_val is None {
                "ws://localhost:1337"@
            } else {
                match ws_gateway_val {
                    Some(gateway) => gateway@,
                    None => spec_ws_url(protocol@, hostname@),
                }
            },
    {
        let ws_gateway: String = if is_dev && ws_gateway_val.is_none() {
            String::from_str("ws://localhost:1337")
        } else {
            match ws_gateway_val {
                Some(gateway) => gateway,
                None => Self::build_ws_url_from_location(protocol, hostname),
            }
        };
        MetaConfig { ws_gateway }
    }

    /// The `ws(s)://host:1337` URL derived from the page's protocol and host.
    pub fn build_ws_url_from_location(protocol: &String, hostname: &String) -> (r: String)
        ensures
            r@ =~= spec_ws_url(protocol@, hostname@),
    {
        let https: String = String::from_str("https:");
        let mut out: String = if *protocol == https {
            String::from_str("wss:")
        } else {
            String::from_str("ws:")
        };
        out.append("//");
        out.append(hostname.as_str());
        out.append(":1337");
        out
    }
}

impl Default for MetaConfig {
    /// The local development endpoint.
    fn default() -> (r: MetaConfig)
        ensures
            r.ws_gateway@ == "ws://localhost:1337"@,
    {
        MetaConfig { ws_gateway: String::from_str("ws://localhost:1337") }
    }
}

} // verus!
