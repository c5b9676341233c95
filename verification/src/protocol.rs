//! Message types shared by the relay client and server, with their
//! mathematical views.

use vstd::prelude::*;

verus! {

/// Spec-level view of a client-to-server message.
pub ghost enum ClientMsgView {
    Register { slug: Seq<char>, token: Seq<char> },
    Response {
        id: Seq<char>,
        status: u16,
        headers: Seq<(Seq<char>, Seq<char>)>,
        body_b64: Seq<char>,
    },
    Heartbeat,
}

/// Spec-level view of a server-to-client message.
pub ghost enum ServerMsgView {
    Registered { ok: bool, error: Option<Seq<char>> },
    Request {
        id: Seq<char>,
        method: Seq<char>,
        path: Seq<char>,
        headers: Seq<(Seq<char>, Seq<char>)>,
        body_b64: Seq<char>,
    },
    Ping,
}

/// View of a header list: each `(name, value)` pair as character sequences.
pub open spec fn headers_view(hs: Seq<(String, String)>) -> Seq<(Seq<char>, Seq<char>)> {
    hs.map_values(|p: (String, String)| (p.0@, p.1@))
}

/// Messages sent from the relay client to the relay server.
#[derive(Debug)]
pub enum ClientMessage {
    /// First message after connecting: authenticate and claim a slug.
    Register { slug: String, token: String },
    /// HTTP response for a forwarded request; `body_b64` carries the body octets
    /// in standard base64.
    Response { id: String, status: u16, headers: Vec<(String, String)>, body_b64: String },
    /// Keep-alive reply.
    Heartbeat,
}

/// Messages sent from the relay server to the relay client.
#[derive(Debug)]
pub enum ServerMessage {
    /// Confirmation (or rejection) of a Register message.
    Registered { ok: bool, error: Option<String> },
    /// An HTTP request the client must replay against its local server;
    /// `id` is the correlation token echoed in the eventual Response.
    Request { id: String, method: String, path: String, headers: Vec<(String, String)>, body_b64: String },
    /// Server-initiated keep-alive.
    Ping,
}

impl View for ClientMessage {
    type V = ClientMsgView;

    open spec fn view(&self) -> ClientMsgView {
        match self {
            ClientMessage::Register { slug, token } => ClientMsgView::Register {
                slug: slug@,
                token: token@,
            },
            ClientMessage::Response { id, status, headers, body_b64 } => ClientMsgView::Response {
                id: id@,
                status: *status,
                headers: headers_view(headers@),
                body_b64: body_b64@,
            },
            ClientMessage::Heartbeat => ClientMsgView::Heartbeat,
        }
    }
}

impl View for ServerMessage {
    type V = ServerMsgView;

    open spec fn view(&self) -> ServerMsgView {
        match self {
            ServerMessage::Registered { ok, error } => ServerMsgView::Registered {
                ok: *ok,
                error: match error {
                    Some(e) => Some(e@),
                    None => None,
                },
            },
            ServerMessage::Request { id, method, path, headers, body_b64 } => ServerMsgView::Request {
                id: id@,
                method: method@,
                path: path@,
                headers: headers_view(headers@),
                body_b64: body_b64@,
            },
            ServerMessage::Ping => ServerMsgView::Ping,
        }
    }
}

} // verus!
