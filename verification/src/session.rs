//! The server tunnel session's decisions: the registration handshake,
//! the keep-alive step, and teardown. The host runtime owns the socket,
//! the queues and the clock; every choice it makes comes from here.

use vstd::prelude::*;
use crate::protocol::{ClientMessage, ClientMsgView, ServerMessage, ServerMsgView};
use crate::registry::{Registry, PendingRequest};
use crate::pending::PendingTable;
use vstd::string::StringExecFns;

verus! {

/// What to do with the first frame of a new connection.
#[derive(Debug)]
pub enum FirstStep {
    /// Not a `Register`: send this refusal and close.
    Reject(ServerMessage),
    /// A `Register`: check these credentials against the directory.
    Authenticate { slug: String, token: String },
}

/// Decides on the first frame of a session: only `Register` may open
/// one; anything else (or a clean close before any frame) is answered
/// with a refusal naming the expectation.
pub fn first_frame_step(m: Option<ClientMessage>) -> (r: FirstStep)
    ensures
        match m {
            Some(msg) => match msg@ {
                ClientMsgView::Register { slug, token } => r matches FirstStep::Authenticate {
                    slug: s,
                    token: t,
                } && s@ == slug && t@ == token,
                _ => r matches FirstStep::Reject(rep) && rep@ == (ServerMsgView::Registered {
                    ok: false,
                    error: Some("Expected register message"@),
                }),
            },
            None => r matches FirstStep::Reject(rep) && rep@ == (ServerMsgView::Registered {
                ok: false,
                error: Some("Expected register message"@),
            }),
        },
{
    match m {
        Some(ClientMessage::Register { slug, token }) => FirstStep::Authenticate { slug, token },
        _ => FirstStep::Reject(
            ServerMessage::Registered {
                ok: false,
                error: Some(String::from_str("Expected register message")),
            },
        ),
    }
}

/// The reply to a `Register` once the directory answered: acceptance,
/// or a refusal naming invalid credentials.
pub fn auth_reply(row_found: bool) -> (r: ServerMessage)
    ensures
        row_found ==> r@ == (ServerMsgView::Registered { ok: true, error: None }),
        !row_found ==> r@ == (ServerMsgView::Registered {
            ok: false,
            error: Some("Invalid slug or token"@),
        }),
{
    if row_found {
        ServerMessage::Registered { ok: true, error: None }
    } else {
        ServerMessage::Registered {
            ok: false,
            error: Some(String::from_str("Invalid slug or token")),
        }
    }
}

/// The keep-alive step: while the slug is still registered, a `Ping`
/// is put on the outbound queue with a throwaway reply slot; once the
/// slug is gone the keep-alive ends.
pub fn heartbeat_step(reg: &Registry, slug: &str, dummy_slot: u64) -> (r: Option<PendingRequest>)
    requires
        reg.wf(),
    ensures
        reg@.contains_key(slug@) ==> (r matches Some(p) && p.msg@ == ServerMsgView::Ping
            && p.reply_slot == dummy_slot),
        !reg@.contains_key(slug@) ==> r is None,
{
    if reg.contains(slug) {
        Some(PendingRequest { msg: ServerMessage::Ping, reply_slot: dummy_slot })
    } else {
        None
    }
}

/// Tears a session down: the slug leaves the registry (idempotent), and
/// the pending table is emptied, handing back one reply slot per
/// outstanding id — each the slot its id was bound to — so every
/// waiting ingress handler sees its slot close.
pub fn session_teardown(reg: &mut Registry, table: &mut PendingTable, slug: &str) -> (orphans: Vec<
    u64,
>)
    requires
        old(reg).wf(),
        old(table).wf(),
    ensures
        final(reg).wf(),
        final(table).wf(),
        final(reg)@ == old(reg)@.remove(slug@),
        final(table)@ == Map::<Seq<char>, u64>::empty(),
        orphans@.len() == old(table).spec_len(),
        forall|t: int|
            0 <= t < orphans@.len() ==> old(table)@.contains_key(#[trigger] old(table).id_at(t))
                && old(table)@[old(table).id_at(t)] == orphans@[t],
{
    reg.remove(slug);
    table.drain_slots()
}

} // verus!
