//! The per-session table of in-flight correlation ids, and the write-mux
//! / read-demux steps of a server tunnel session that act on it.

use vstd::prelude::*;
use crate::smap::StrMap;
use crate::protocol::{ClientMessage, ClientMsgView, ServerMsgView};
use crate::registry::{PendingRequest, RelayResponse};
use crate::ext::{b64_of, b64_decode};

verus! {

/// Map correlation id → reply-slot identifier. An id is inserted
/// strictly before its `Request` frame is written and removed exactly
/// when the matching `Response` is demultiplexed.
pub struct PendingTable {
    map: StrMap<u64>,
}

impl View for PendingTable {
    type V = Map<Seq<char>, u64>;

    closed spec fn view(&self) -> Map<Seq<char>, u64> {
        self.map@
    }
}

impl PendingTable {
    /// Internal invariant of the backing store.
    pub closed spec fn wf(&self) -> bool {
        self.map.wf()
    }

    /// An empty table.
    pub fn new() -> (r: PendingTable)
        ensures
            r@ == Map::<Seq<char>, u64>::empty(),
            r.wf(),
    {
        PendingTable { map: StrMap::new() }
    }

    /// How many stored entries hold correlation id `id`.
    pub closed spec fn id_count(&self, id: Seq<char>) -> nat {
        self.map.spec_key_count(id)
    }

    /// A correlation id has at most one outstanding entry at any
    /// instant, so a routed `Response` consumes exactly its own.
    pub proof fn lemma_at_most_one_outstanding(&self, id: Seq<char>)
        requires
            self.wf(),
        ensures
            self.id_count(id) <= 1,
    {
        self.map.lemma_at_most_one_entry(id);
    }

    /// How many correlation ids are outstanding.
    pub closed spec fn spec_len(&self) -> nat {
        self.map.spec_len()
    }

    /// The id of the stored entry at position `t` before a drain.
    pub closed spec fn id_at(&self, t: int) -> Seq<char> {
        self.map.entry_key(t)
    }

    /// Closes the table, handing back every remaining reply slot so the
    /// session teardown can close each of them: one slot per
    /// outstanding id, each the slot that id was bound to.
    pub fn drain_slots(&mut self) -> (r: Vec<u64>)
        requires
            old(self).wf(),
        ensures
            final(self).wf(),
            final(self)@ == Map::<Seq<char>, u64>::empty(),
            r@.len() == old(self).spec_len(),
            forall|t: int|
                0 <= t < r@.len() ==> old(self)@.contains_key(#[trigger] old(self).id_at(t))
                    && old(self)@[old(self).id_at(t)] == r@[t],
    {
        self.map.drain_values()
    }
}

/// One step of the session writer: drains one `PendingRequest` from the
/// outbound queue. For a `Request` the correlation id is bound to its
/// reply slot strictly before the caller may write the frame; a `Ping`
/// is written without a table entry; anything else is skipped. The
/// result says whether the frame is to be written.
pub fn writer_step(table: &mut PendingTable, req: &PendingRequest) -> (emit: bool)
    requires
        old(table).wf(),
    ensures
        final(table).wf(),
        match req.msg@ {
            ServerMsgView::Request { id, .. } => emit && final(table)@ == old(table)@.insert(
                id,
                req.reply_slot,
            ) && final(table)@.contains_key(id) && final(table)@[id] == req.reply_slot,
            ServerMsgView::Ping => emit && final(table)@ == old(table)@,
            ServerMsgView::Registered { .. } => !emit && final(table)@ == old(table)@,
        },
{
    match &req.msg {
        crate::protocol::ServerMessage::Request { id, .. } => {
            table.map.insert(id.clone(), req.reply_slot);
            true
        },
        crate::protocol::ServerMessage::Ping => true,
        crate::protocol::ServerMessage::Registered { .. } => false,
    }
}

/// One step of the session reader, on a frame from the client. A
/// `Response` whose id has exactly one outstanding entry consumes that
/// entry and is delivered to its slot, with the base64-decoded body (a
/// body that is no canonical encoding counts as empty); a `Response`
/// with no entry is dropped silently, as are `Heartbeat` and a stray
/// `Register`.
pub fn reader_step(table: &mut PendingTable, msg: ClientMessage) -> (r: Option<(u64, RelayResponse)>)
    requires
        old(table).wf(),
    ensures
        final(table).wf(),
        match msg@ {
            ClientMsgView::Response { id, status, headers, body_b64 } => {
                if old(table)@.contains_key(id) {
                    &&& r matches Some(p)
                    &&& p.0 == old(table)@[id]
                    &&& final(table)@ == old(table)@.remove(id)
                    &&& p.1@.status == status
                    &&& p.1@.headers == headers
                    &&& forall|b: Seq<u8>| body_b64 == b64_of(b) ==> p.1@.body == b
                    &&& (forall|b: Seq<u8>| body_b64 != b64_of(b)) ==> p.1@.body
                        == Seq::<u8>::empty()
                } else {
                    r is None && final(table)@ == old(table)@
                }
            },
            ClientMsgView::Heartbeat => r is None && final(table)@ == old(table)@,
            ClientMsgView::Register { .. } => r is None && final(table)@ == old(table)@,
        },
{
    match msg {
        ClientMessage::Response { id, status, headers, body_b64 } => {
            match table.map.get(id.as_str()) {
                Some(slot) => {
                    table.map.remove(id.as_str());
                    let body = match b64_decode(body_b64.as_str()) {
                        Some(b) => b,
                        None => Vec::new(),
                    };
                    proof {
                        assert(body@ == Seq::<u8>::empty() || body_b64@ == b64_of(body@));
                    }
                    Some((slot, RelayResponse { status, headers, body }))
                },
                None => None,
            }
        },
        ClientMessage::Heartbeat => None,
        ClientMessage::Register { .. } => None,
    }
}

/// Responses are never mixed across correlation ids: consuming the entry
/// for one id leaves every other id's slot untouched, and leaves nothing
/// behind for the consumed id, so a second response with the same id is
/// dropped rather than delivered.
pub proof fn lemma_no_cross_routing(m: Map<Seq<char>, u64>, id1: Seq<char>, id2: Seq<char>)
    requires
        m.contains_key(id1),
        m.contains_key(id2),
        id1 != id2,
    ensures
        m.remove(id1).contains_key(id2),
        m.remove(id1)[id2] == m[id2],
        !m.remove(id1).contains_key(id1),
{
}

} // verus!
