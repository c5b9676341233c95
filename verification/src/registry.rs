//! The slug registry: which tunnels are live, one handle per slug.

use vstd::prelude::*;
use crate::smap::StrMap;
use crate::protocol::{ServerMessage, headers_view};

verus! {

/// A handle to a connected relay session: it names the session's bounded
/// outbound queue, which the host runtime resolves to the real channel.
#[derive(Debug, Clone, Copy, PartialEq, Eq, Structural)]
pub struct TunnelHandle {
    /// Identifier of the session's outbound queue.
    pub chan: u64,
}

/// A message to send to the relay client together with the single-shot
/// reply slot (named by identifier) awaiting the eventual response.
#[derive(Debug)]
pub struct PendingRequest {
    /// The message to put on the wire, normally a `Request` or `Ping`.
    pub msg: ServerMessage,
    /// Identifier of the reply slot; for `Ping` a throwaway.
    pub reply_slot: u64,
}

/// Spec-level view of a decoded relay response.
pub ghost struct RelayRespView {
    pub status: u16,
    pub headers: Seq<(Seq<char>, Seq<char>)>,
    pub body: Seq<u8>,
}

/// The relay client's HTTP response, decoded: status, headers, raw body
/// octets.
#[derive(Debug)]
pub struct RelayResponse {
    pub status: u16,
    pub headers: Vec<(String, String)>,
    pub body: Vec<u8>,
}

impl View for RelayResponse {
    type V = RelayRespView;

    open spec fn view(&self) -> RelayRespView {
        RelayRespView {
            status: self.status,
            headers: headers_view(self.headers@),
            body: self.body@,
        }
    }
}

/// Map slug → live tunnel handle. Insert replaces any prior entry,
/// remove is idempotent, and get returns a snapshot copy.
pub struct Registry {
    map: StrMap<TunnelHandle>,
}

impl View for Registry {
    type V = Map<Seq<char>, TunnelHandle>;

    closed spec fn view(&self) -> Map<Seq<char>, TunnelHandle> {
        self.map@
    }
}

impl Registry {
    /// Internal invariant of the backing store.
    pub closed spec fn wf(&self) -> bool {
        self.map.wf()
    }

    /// An empty registry.
    pub fn new() -> (r: Registry)
        ensures
            r@ == Map::<Seq<char>, TunnelHandle>::empty(),
            r.wf(),
    {
        Registry { map: StrMap::new() }
    }

    /// Binds `slug` to `handle`, replacing any prior entry.
    pub fn insert(&mut self, slug: String, handle: TunnelHandle)
        requires
            old(self).wf(),
        ensures
            final(self).wf(),
            final(self)@ == old(self)@.insert(slug@, handle),
    {
        self.map.insert(slug, handle);
    }

    /// Unbinds `slug`; idempotent.
    pub fn remove(&mut self, slug: &str)
        requires
            old(self).wf(),
        ensures
            final(self).wf(),
            final(self)@ == old(self)@.remove(slug@),
    {
        self.map.remove(slug);
    }

    /// The handle bound to `slug`, if any, as a copy safe to use while
    /// the registry changes.
    pub fn get(&self, slug: &str) -> (r: Option<TunnelHandle>)
        requires
            self.wf(),
        ensures
            r == if self@.contains_key(slug@) {
                Some(self@[slug@])
            } else {
                None::<TunnelHandle>
            },
    {
        self.map.get(slug)
    }

    /// How many stored entries hold `slug`.
    pub closed spec fn slug_count(&self, slug: Seq<char>) -> nat {
        self.map.spec_key_count(slug)
    }

    /// Whether `slug` has a live tunnel.
    pub fn contains(&self, slug: &str) -> (r: bool)
        requires
            self.wf(),
        ensures
            r == self@.contains_key(slug@),
    {
        self.map.contains(slug)
    }
}

/// The registry holds at most one handle per slug at any instant; the
/// count of entries holding a slug in the backing store never passes
/// one.
pub proof fn lemma_at_most_one_handle_stored(r: Registry, slug: Seq<char>)
    requires
        r.wf(),
    ensures
        r.slug_count(slug) <= 1,
{
    r.map.lemma_at_most_one_entry(slug);
}

/// A second registration for the same slug replaces the first, leaving
/// a single binding, which `get` then returns; removal is idempotent.
pub proof fn lemma_at_most_one_handle(
    m: Map<Seq<char>, TunnelHandle>,
    slug: Seq<char>,
    h1: TunnelHandle,
    h2: TunnelHandle,
)
    ensures
        m.insert(slug, h1).insert(slug, h2) == m.insert(slug, h2),
        m.insert(slug, h2)[slug] == h2,
        m.insert(slug, h2).remove(slug).remove(slug) == m.insert(slug, h2).remove(slug),
{
    assert(m.insert(slug, h1).insert(slug, h2) =~= m.insert(slug, h2));
    assert(m.insert(slug, h2).remove(slug).remove(slug) =~= m.insert(slug, h2).remove(slug));
}

} // verus!
