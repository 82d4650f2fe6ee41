//! What a client's web socket is told and asked.
use vstd::prelude::*;
use vstd::string::StrSliceExecFns;

use crate::json::{json_string, quote_json};
use crate::number_text::{decimal, int_text};
use crate::service_error::{ErrorView, ServiceError};
use crate::text::{eq_ignore_ascii_case, same_ignoring_case};

verus! {

/// After how many seconds without a sign of life a web socket counts as lost.
pub const WEB_SOCKET_LOST_TIMEOUT_SECS: i32 = 60;

/// The message that tells a client how often to show a sign of life.
pub open spec fn keep_alive_message() -> Seq<char> {
    r#"{"Data":"#@ + decimal(WEB_SOCKET_LOST_TIMEOUT_SECS as int) + r#","MessageType":"#@
        + json_string("ForceKeepAlive"@) + "}"@
}

/// The message that tells a client how often to show a sign of life.
pub fn force_keep_alive_bytes() -> (r: Vec<u8>)
    ensures
        r@ == vstd::utf8::encode_utf8(keep_alive_message()),
{
    let mut t: String = r#"{"Data":"#.to_owned();
    t.push_str(int_text(WEB_SOCKET_LOST_TIMEOUT_SECS as i64).as_str());
    t.push_str(r#","MessageType":"#);
    t.push_str(quote_json("ForceKeepAlive").as_str());
    t.push_str("}");
    t.as_str().as_bytes_vec()
}

/// What a web socket says of its client.
#[derive(Debug, Clone)]
pub struct SocketAuthorization {
    pub token: Option<String>,
    pub device_id: Option<String>,
}

/// What to look a web socket's session up by.
#[derive(Debug, Clone)]
pub struct SessionLookup {
    pub token: String,
    pub device_id: String,
    pub remote_endpoint: String,
}

/// The text, or none at all.
pub open spec fn or_empty(s: Option<String>) -> Seq<char> {
    match s {
        Some(t) => t@,
        None => Seq::empty(),
    }
}

fn text_or_empty(s: &Option<String>) -> (r: String)
    ensures
        r@ == or_empty(*s),
{
    match s {
        Some(t) => t.clone(),
        None => String::new(),
    }
}

/// What to look a new web socket's session up by. A client without a token is
/// refused. The socket's own idea of the remote end goes before the request's.
pub fn connected_session(
    auth: &SocketAuthorization,
    socket_endpoint: &Option<String>,
    request_endpoint: &Option<String>,
) -> (r: Result<SessionLookup, ServiceError>)
    ensures
        match r {
            Ok(l) => {
                &&& auth.token matches Some(t) && l.token@ == t@
                &&& l.device_id@ == or_empty(auth.device_id)
                &&& l.remote_endpoint@ == match *socket_endpoint {
                    Some(e) => e@,
                    None => or_empty(*request_endpoint),
                }
            },
            Err(e) => auth.token is None && e@ == ErrorView::Unauthorized(
                "web socket connection carries no token"@,
            ),
        },
{
    match &auth.token {
        Some(t) => Ok(
            SessionLookup {
                token: t.clone(),
                device_id: text_or_empty(&auth.device_id),
                remote_endpoint: match socket_endpoint {
                    Some(e) => e.clone(),
                    None => text_or_empty(request_endpoint),
                },
            },
        ),
        None => Err(
            ServiceError::Unauthorized("web socket connection carries no token".to_owned()),
        ),
    }
}

/// The listeners that hear of web sockets; it decides which requests become one.
#[derive(Debug, Clone)]
pub struct HermitWebSocketManager<L> {
    pub listeners: Vec<L>,
}

impl<L> HermitWebSocketManager<L> {
    /// A manager with these listeners.
    pub fn new(listeners: Vec<L>) -> (r: Self)
        ensures
            r.listeners == listeners,
    {
        HermitWebSocketManager { listeners }
    }

    /// How many listeners there are.
    pub fn listener_count(&self) -> (r: usize)
        ensures
            r == self.listeners@.len(),
    {
        self.listeners.len()
    }

    /// Whether a request may become a web socket: its `Upgrade` header, which is
    /// given, says so.
    pub fn handle_request(&self, upgrade: Option<&str>) -> (r: Result<(), ServiceError>)
        ensures
            r is Ok <==> upgrade is Some && same_ignoring_case(upgrade->0@, "websocket"@),
            r matches Err(e) ==> e@ == ErrorView::InvalidInput(
                "not a web socket upgrade request"@,
            ),
    {
        let is_upgrade: bool = match upgrade {
            Some(v) => eq_ignore_ascii_case(v, "websocket"),
            None => false,
        };
        if is_upgrade {
            Ok(())
        } else {
            Err(ServiceError::InvalidInput("not a web socket upgrade request".to_owned()))
        }
    }
}

} // verus!
