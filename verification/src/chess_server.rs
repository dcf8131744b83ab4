use vstd::prelude::*;

use crate::generator::SessionIdGenerator;
use crate::messages::{Disconnect, InMessage, NewConnection, OutMessage};
use crate::types::{DeliveryHandle, SessionId};

verus! {

/// One registry entry: a connection identifier paired with the delivery
/// handle the hub uses to push text to that connection.
pub type Entry = (SessionId, DeliveryHandle);

/// One outbound push decided by the hub: `message` is to be handed to the
/// connection registered as `to`, through `handle`. Performing the push is
/// best-effort and happens outside the hub; a failed push is not an error
/// and does not touch the registry.
pub struct Delivery {
    pub to: SessionId,
    pub handle: DeliveryHandle,
    pub message: OutMessage,
}

/// Whether some entry of `s` carries the identifier `id`.
pub open spec fn contains_id(s: Seq<Entry>, id: SessionId) -> bool {
    exists|i: int| 0 <= i < s.len() && s[i].0 == id
}

/// No two entries of `s` carry the same identifier.
pub open spec fn unique_ids(s: Seq<Entry>) -> bool {
    forall|i: int, j: int| 0 <= i < j < s.len() ==> s[i].0 != s[j].0
}

/// The identifiers of `s` are strictly increasing, which is how the hub
/// keeps them: entries stand in registration order and fresh identifiers
/// only ever grow.
pub open spec fn ids_increasing(s: Seq<Entry>) -> bool {
    forall|i: int, j: int| 0 <= i < j < s.len() ==> s[i].0 < s[j].0
}

/// The registry described by the entries `s`, as a map from identifier to
/// delivery handle.
pub open spec fn entries_map(s: Seq<Entry>) -> Map<SessionId, DeliveryHandle>
    decreases s.len(),
{
    if s.len() == 0 {
        Map::empty()
    } else {
        entries_map(s.drop_last()).insert(s.last().0, s.last().1)
    }
}

/// The entries of `s` that a broadcast excluding `exclude` reaches, in
/// registry order.
pub open spec fn spec_targets(s: Seq<Entry>, exclude: Option<SessionId>) -> Seq<Entry>
    decreases s.len(),
{
    if s.len() == 0 {
        Seq::empty()
    } else {
        let rest = spec_targets(s.drop_last(), exclude);
        if exclude == Some(s.last().0) {
            rest
        } else {
            rest.push(s.last())
        }
    }
}

/// The entries of `s` whose identifier is not `id`, in registry order.
pub open spec fn spec_remove_id(s: Seq<Entry>, id: SessionId) -> Seq<Entry>
    decreases s.len(),
{
    if s.len() == 0 {
        Seq::empty()
    } else {
        let rest = spec_remove_id(s.drop_last(), id);
        if s.last().0 == id {
            rest
        } else {
            rest.push(s.last())
        }
    }
}

/// How many entries of `s` carry the identifier `id`.
pub open spec fn count_id(s: Seq<Entry>, id: SessionId) -> int
    decreases s.len(),
{
    if s.len() == 0 {
        0int
    } else {
        count_id(s.drop_last(), id) + if s.last().0 == id {
            1int
        } else {
            0int
        }
    }
}

/// A broadcast that excludes nobody reaches every entry, in order.
pub proof fn lemma_targets_none(s: Seq<Entry>)
    ensures
        spec_targets(s, None) =~= s,
    decreases s.len(),
{
    if s.len() > 0 {
        lemma_targets_none(s.drop_last());
    }
}

/// Excluding an identifier that is not registered excludes nobody: the
/// broadcast reaches every entry, in order.
pub proof fn lemma_targets_exclude_absent(s: Seq<Entry>, x: SessionId)
    requires
        !contains_id(s, x),
    ensures
        spec_targets(s, Some(x)) =~= s,
    decreases s.len(),
{
    if s.len() > 0 {
        assert forall|i: int| 0 <= i < s.drop_last().len() implies s.drop_last()[i].0 != x by {
            assert(s[i] == s.drop_last()[i]);
        }
        lemma_targets_exclude_absent(s.drop_last(), x);
        assert(s.last().0 != x) by {
            assert(s[s.len() - 1] == s.last());
        }
    }
}

/// An identifier is in the domain of the registry map exactly when some
/// entry carries it.
pub proof fn lemma_entries_map_dom(s: Seq<Entry>)
    ensures
        forall|x: SessionId| entries_map(s).dom().contains(x) <==> contains_id(s, x),
    decreases s.len(),
{
    if s.len() > 0 {
        let d = s.drop_last();
        lemma_entries_map_dom(d);
        assert(entries_map(s) == entries_map(d).insert(s.last().0, s.last().1));
        assert forall|x: SessionId| entries_map(s).dom().contains(x) implies contains_id(s, x) by {
            if x == s.last().0 {
                assert(s[s.len() - 1].0 == x);
            } else {
                assert(entries_map(d).dom().contains(x));
                assert(contains_id(d, x));
                let i = choose|i: int| 0 <= i < d.len() && d[i].0 == x;
                assert(s[i].0 == x);
            }
        }
        assert forall|x: SessionId| contains_id(s, x) implies entries_map(s).dom().contains(x) by {
            let i = choose|i: int| 0 <= i < s.len() && s[i].0 == x;
            if i < s.len() - 1 {
                assert(d[i].0 == x);
                assert(contains_id(d, x));
                assert(entries_map(d).dom().contains(x));
            } else {
                assert(x == s.last().0);
            }
        }
    }
}

/// When identifiers are unique, the registry map sends each entry's
/// identifier to that entry's handle.
pub proof fn lemma_entries_map_index(s: Seq<Entry>, i: int)
    requires
        unique_ids(s),
        0 <= i < s.len(),
    ensures
        entries_map(s).dom().contains(s[i].0),
        entries_map(s)[s[i].0] == s[i].1,
    decreases s.len(),
{
    if i == s.len() - 1 {
        assert(s.last() == s[i]);
    } else {
        assert forall|a: int, b: int| 0 <= a < b < s.drop_last().len() implies s.drop_last()[a].0
            != s.drop_last()[b].0 by {
            assert(s.drop_last()[a] == s[a] && s.drop_last()[b] == s[b]);
        }
        lemma_entries_map_index(s.drop_last(), i);
        assert(s.drop_last()[i] == s[i]);
        assert(s[i].0 != s.last().0) by {
            assert(s.last() == s[s.len() - 1]);
        }
    }
}

/// Dropping one identifier from the entries drops exactly that key from the
/// registry map.
pub proof fn lemma_remove_id_map(s: Seq<Entry>, id: SessionId)
    ensures
        entries_map(spec_remove_id(s, id)) =~= entries_map(s).remove(id),
    decreases s.len(),
{
    if s.len() > 0 {
        lemma_remove_id_map(s.drop_last(), id);
        if s.last().0 != id {
            let rest = spec_remove_id(s.drop_last(), id);
            assert(rest.push(s.last()).drop_last() =~= rest);
            assert(rest.push(s.last()).last() == s.last());
        }
    }
}

/// Dropping an identifier that no entry carries changes nothing.
pub proof fn lemma_remove_id_absent(s: Seq<Entry>, id: SessionId)
    requires
        !contains_id(s, id),
    ensures
        spec_remove_id(s, id) =~= s,
    decreases s.len(),
{
    if s.len() > 0 {
        assert forall|i: int| 0 <= i < s.drop_last().len() implies s.drop_last()[i].0 != id by {
            assert(s[i] == s.drop_last()[i]);
        }
        lemma_remove_id_absent(s.drop_last(), id);
        assert(s.last().0 != id) by {
            assert(s[s.len() - 1] == s.last());
        }
    }
}

/// A broadcast excluding `exclude` reaches a registered identifier other
/// than the excluded one exactly once, and reaches no identifier that is
/// not registered and never the excluded one.
pub proof fn lemma_targets_deliver_exactly(s: Seq<Entry>, exclude: Option<SessionId>, id: SessionId)
    requires
        unique_ids(s),
    ensures
        count_id(spec_targets(s, exclude), id) == if contains_id(s, id) && Some(id) != exclude {
            1int
        } else {
            0int
        },
    decreases s.len(),
{
    if s.len() > 0 {
        let d = s.drop_last();
        let l = s.last();
        assert forall|a: int, b: int| 0 <= a < b < d.len() implies d[a].0 != d[b].0 by {
            assert(d[a] == s[a] && d[b] == s[b]);
        }
        lemma_targets_deliver_exactly(d, exclude, id);
        assert(l == s[s.len() - 1]);
        // an identifier of a dropped-last entry sequence is carried by the whole
        assert forall|x: SessionId| contains_id(d, x) implies contains_id(s, x) by {
            let i = choose|i: int| 0 <= i < d.len() && d[i].0 == x;
            assert(s[i].0 == x);
        }
        // and conversely, unless it is the last entry's identifier
        assert forall|x: SessionId| contains_id(s, x) && x != l.0 implies contains_id(d, x) by {
            let i = choose|i: int| 0 <= i < s.len() && s[i].0 == x;
            assert(d[i].0 == x);
        }
        if exclude == Some(l.0) {
            if id == l.0 {
                assert(!contains_id(d, l.0)) by {
                    if contains_id(d, l.0) {
                        let i = choose|i: int| 0 <= i < d.len() && d[i].0 == l.0;
                        assert(s[i].0 == s[s.len() - 1].0);
                    }
                }
            }
        } else {
            let rest = spec_targets(d, exclude);
            assert(rest.push(l).drop_last() =~= rest);
            assert(rest.push(l).last() == l);
            if id == l.0 {
                assert(!contains_id(d, l.0)) by {
                    if contains_id(d, l.0) {
                        let i = choose|i: int| 0 <= i < d.len() && d[i].0 == l.0;
                        assert(s[i].0 == s[s.len() - 1].0);
                    }
                }
            }
        }
    }
}

/// Identifiers returned by successive joins are pairwise distinct: each
/// join returns an identifier outside the set issued so far and then adds
/// it to that set, so a later join can never return it again.
pub proof fn lemma_issued_ids_distinct(issued: Set<SessionId>, x: SessionId, y: SessionId)
    requires
        !issued.contains(x),
        !issued.insert(x).contains(y),
    ensures
        x != y,
{
}

/// A joined identifier is registered from the moment its join inserts it:
/// it stays registered across relays and unicasts (which leave the registry
/// unchanged), across joins of other identifiers, and across leaves of
/// other identifiers, and is gone exactly after its own leave removes it.
pub proof fn lemma_membership_until_leave(
    m: Map<SessionId, DeliveryHandle>,
    x: SessionId,
    h: DeliveryHandle,
    y: SessionId,
    h2: DeliveryHandle,
)
    requires
        x != y,
    ensures
        m.insert(x, h).dom().contains(x),
        m.insert(x, h).insert(y, h2).dom().contains(x),
        m.insert(x, h).remove(y).dom().contains(x),
        !m.remove(x).dom().contains(x),
{
}

/// The connection registry and broadcast coordinator. It owns the mapping
/// from connection identifier to delivery handle; all registrations,
/// deregistrations and broadcasts go through it, one at a time, so none of
/// their effects interleave.
pub struct ChessServer {
    sessions: Vec<Entry>,
    session_id_gen: SessionIdGenerator,
}

impl ChessServer {
    /// The registry entries, in registration order.
    pub closed spec fn entries(self) -> Seq<Entry> {
        self.sessions@
    }

    /// The identifier the next join will be assigned.
    pub closed spec fn next_id(self) -> int {
        self.session_id_gen.seed()
    }

    /// Every identifier handed out so far, registered or since departed.
    pub closed spec fn issued(self) -> Set<SessionId> {
        self.session_id_gen.issued()
    }

    /// The registry as a map from identifier to delivery handle.
    pub open spec fn registry(self) -> Map<SessionId, DeliveryHandle> {
        entries_map(self.entries())
    }

    /// The hub's invariant: the generator is well formed, entries stand in
    /// registration order with strictly increasing identifiers (so
    /// identifiers are unique), and every registered identifier is a real
    /// one already issued — at least 1, below the next fresh identifier.
    pub closed spec fn wf(self) -> bool {
        &&& self.session_id_gen.wf()
        &&& ids_increasing(self.entries())
        &&& forall|i: int|
            0 <= i < self.entries().len() ==> 1 <= (#[trigger] self.entries()[i]).0 < self.next_id()
    }

    /// What the hub's invariant guarantees about its entries: they stand in
    /// registration order with strictly increasing, hence unique,
    /// identifiers, every one a real identifier already issued.
    pub proof fn lemma_wf_entries(self)
        requires
            self.wf(),
        ensures
            ids_increasing(self.entries()),
            unique_ids(self.entries()),
            forall|i: int|
                0 <= i < self.entries().len() ==> 1 <= (#[trigger] self.entries()[i]).0
                    < self.next_id(),
    {
    }

    /// Whether the hub can register another connection, that is, whether a
    /// fresh identifier can still be issued.
    pub fn can_accept(&self) -> (r: bool)
        ensures
            r == (self.next_id() < usize::MAX),
    {
        self.session_id_gen.has_next()
    }

    /// The delivery handle registered for `id`, if any.
    pub fn lookup(&self, id: SessionId) -> (r: Option<DeliveryHandle>)
        requires
            self.wf(),
        ensures
            match r {
                Some(h) => self.registry().dom().contains(id) && h == self.registry()[id],
                None => !self.registry().dom().contains(id),
            },
    {
        proof {
            lemma_entries_map_dom(self.entries());
        }
        let n = self.sessions.len();
        let mut i: usize = 0;
        while i < n
            invariant
                self.wf(),
                n == self.sessions.len(),
                0 <= i <= n,
                forall|k: int| 0 <= k < i ==> (#[trigger] self.sessions@[k]).0 != id,
            decreases n - i,
        {
            let (sid, handle) = self.sessions[i];
            if sid == id {
                proof {
                    lemma_entries_map_index(self.entries(), i as int);
                }
                return Some(handle);
            }
            i = i + 1;
        }
        proof {
            assert(!contains_id(self.entries(), id));
        }
        None
    }

    /// Builds the one delivery of `message` to the connection registered as
    /// `recipient_id`, or nothing when that identifier is not registered.
    pub fn send_message(&self, message: &str, recipient_id: SessionId) -> (d: Option<Delivery>)
        requires
            self.wf(),
        ensures
            match d {
                Some(del) => {
                    &&& self.registry().dom().contains(recipient_id)
                    &&& del.to == recipient_id
                    &&& del.handle == self.registry()[recipient_id]
                    &&& del.message.text() == message@
                },
                None => !self.registry().dom().contains(recipient_id),
            },
    {
        match self.lookup(recipient_id) {
            Some(handle) => Some(
                Delivery { to: recipient_id, handle, message: OutMessage(message.to_owned()) },
            ),
            None => None,
        }
    }

    /// Builds one delivery of `message` for every registered connection
    /// except the excluded one, in registry order.
    pub fn send_message_broadcast(&self, message: &str, exclude: Option<SessionId>) -> (ds: Vec<
        Delivery,
    >)
        ensures
            ds@.len() == spec_targets(self.entries(), exclude).len(),
            forall|k: int|
                0 <= k < ds@.len() ==> {
                    let t = spec_targets(self.entries(), exclude)[k];
                    &&& (#[trigger] ds@[k]).to == t.0
                    &&& ds@[k].handle == t.1
                    &&& ds@[k].message.text() == message@
                },
    {
        let n = self.sessions.len();
        let mut ds: Vec<Delivery> = Vec::new();
        let mut i: usize = 0;
        while i < n
            invariant
                n == self.sessions.len(),
                0 <= i <= n,
                ds@.len() == spec_targets(self.sessions@.take(i as int), exclude).len(),
                forall|k: int|
                    0 <= k < ds@.len() ==> {
                        let t = spec_targets(self.sessions@.take(i as int), exclude)[k];
                        &&& (#[trigger] ds@[k]).to == t.0
                        &&& ds@[k].handle == t.1
                        &&& ds@[k].message.text() == message@
                    },
            decreases n - i,
        {
            let (sid, handle) = self.sessions[i];
            proof {
                let pre = self.sessions@.take(i as int);
                let cur = self.sessions@.take(i as int + 1);
                assert(cur.drop_last() =~= pre);
                assert(cur.last() == self.sessions@[i as int]);
            }
            let excluded = match exclude {
                Some(x) => x == sid,
                None => false,
            };
            if !excluded {
                ds.push(Delivery { to: sid, handle, message: OutMessage(message.to_owned()) });
            }
            i = i + 1;
        }
        proof {
            assert(self.sessions@.take(n as int) =~= self.sessions@);
        }
        ds
    }

    /// Registers a new connection: assigns it a fresh identifier, inserts it
    /// into the registry, and decides the resulting pushes — a private
    /// welcome to the new connection through its own handle, then a join
    /// notice to every other registered connection. Returns the new
    /// identifier and the pushes, welcome first.
    pub fn handle_new_connection(&mut self, msg: NewConnection) -> (r: (SessionId, Vec<Delivery>))
        requires
            old(self).wf(),
            old(self).next_id() < usize::MAX,
        ensures
            final(self).wf(),
            // the identifier is fresh: never issued before this join, issued now
            r.0 == old(self).next_id(),
            1 <= r.0,
            !old(self).issued().contains(r.0),
            final(self).issued() =~= old(self).issued().insert(r.0),
            final(self).next_id() == r.0 + 1,
            // the registry gains exactly the new connection
            !contains_id(old(self).entries(), r.0),
            final(self).entries() =~= old(self).entries().push((r.0, msg.addr)),
            final(self).registry() =~= old(self).registry().insert(r.0, msg.addr),
            // the welcome goes to the new connection through its own handle
            r.1@.len() == 1 + spec_targets(old(self).entries(), Some(r.0)).len(),
            r.1@[0].to == r.0 && r.1@[0].handle == msg.addr && r.1@[0].message.text()
                == "Welcome"@,
            // the join notice goes to every other registered connection
            forall|k: int|
                1 <= k < r.1@.len() ==> {
                    let t = spec_targets(old(self).entries(), Some(r.0))[k - 1];
                    &&& (#[trigger] r.1@[k]).to == t.0
                    &&& r.1@[k].handle == t.1
                    &&& r.1@[k].message.text() == "Someone joined"@
                },
    {
        let id = self.session_id_gen.generate();
        proof {
            lemma_entries_map_dom(self.entries());
            assert forall|i: int| 0 <= i < self.entries().len() implies (
            #[trigger] self.entries()[i]).0 != id by {}
        }
        self.sessions.push((id, msg.addr));
        proof {
            let s = self.sessions@;
            assert(s.drop_last() =~= old(self).entries());
            assert(s.last() == (id, msg.addr));
        }
        let welcome = Delivery {
            to: id,
            handle: msg.addr,
            message: OutMessage("Welcome".to_owned()),
        };
        let notices = self.send_message_broadcast("Someone joined", Some(id));
        let mut deliveries: Vec<Delivery> = Vec::new();
        deliveries.push(welcome);
        let mut rest = notices;
        deliveries.append(&mut rest);
        (id, deliveries)
    }

    /// Deregisters a departed connection: removes its identifier from the
    /// registry if present (removing an absent identifier is a no-op, not an
    /// error), then decides a disconnect notice for every remaining
    /// registered connection — a system broadcast that excludes nobody.
    pub fn handle_disconnect(&mut self, msg: Disconnect) -> (ds: Vec<Delivery>)
        requires
            old(self).wf(),
        ensures
            final(self).wf(),
            final(self).next_id() == old(self).next_id(),
            final(self).issued() =~= old(self).issued(),
            // exactly the departed identifier is removed, keeping order
            final(self).entries() =~= spec_remove_id(old(self).entries(), msg.id),
            final(self).registry() =~= old(self).registry().remove(msg.id),
            !contains_id(final(self).entries(), msg.id),
            // removing an absent identifier changes nothing
            !contains_id(old(self).entries(), msg.id) ==> final(self).entries() =~= old(
                self,
            ).entries(),
            // the disconnect notice reaches every remaining connection, in order
            ds@.len() == final(self).entries().len(),
            forall|k: int|
                0 <= k < ds@.len() ==> {
                    let t = final(self).entries()[k];
                    &&& (#[trigger] ds@[k]).to == t.0
                    &&& ds@[k].handle == t.1
                    &&& ds@[k].message.text() == "Someone disconnected"@
                },
    {
        let n = self.sessions.len();
        let mut kept: Vec<Entry> = Vec::new();
        let mut i: usize = 0;
        while i < n
            invariant
                self.wf(),
                n == self.sessions.len(),
                0 <= i <= n,
                kept@ =~= spec_remove_id(self.sessions@.take(i as int), msg.id),
                forall|k: int|
                    0 <= k < kept@.len() ==> exists|j: int|
                        0 <= j < i && (#[trigger] kept@[k]) == self.sessions@[j],
                ids_increasing(kept@),
                forall|k: int, j: int|
                    0 <= k < kept@.len() && i <= j < n ==> (#[trigger] kept@[k]).0 < (
                    #[trigger] self.sessions@[j]).0,
            decreases n - i,
        {
            let (sid, handle) = self.sessions[i];
            proof {
                let pre = self.sessions@.take(i as int);
                let cur = self.sessions@.take(i as int + 1);
                assert(cur.drop_last() =~= pre);
                assert(cur.last() == self.sessions@[i as int]);
            }
            if sid != msg.id {
                kept.push((sid, handle));
            }
            i = i + 1;
        }
        proof {
            assert(self.sessions@.take(n as int) =~= self.sessions@);
            lemma_remove_id_map(self.sessions@, msg.id);
            lemma_entries_map_dom(self.sessions@);
            lemma_entries_map_dom(kept@);
            if !contains_id(self.sessions@, msg.id) {
                lemma_remove_id_absent(self.sessions@, msg.id);
            }
        }
        self.sessions = kept;
        let ds = self.send_message_broadcast("Someone disconnected", None);
        proof {
            lemma_targets_none(self.sessions@);
        }
        ds
    }

    /// Relays a text message from one connection to every other registered
    /// connection. The sender's own identifier is excluded; if the sender is
    /// no longer registered the relay still reaches all others. The registry
    /// itself is untouched.
    pub fn handle_in_message(&self, msg: InMessage) -> (ds: Vec<Delivery>)
        ensures
            ds@.len() == spec_targets(self.entries(), Some(msg.id)).len(),
            forall|k: int|
                0 <= k < ds@.len() ==> {
                    let t = spec_targets(self.entries(), Some(msg.id))[k];
                    &&& (#[trigger] ds@[k]).to == t.0
                    &&& ds@[k].handle == t.1
                    &&& ds@[k].message.text() == msg.content@
                },
    {
        self.send_message_broadcast(msg.content.as_str(), Some(msg.id))
    }
}

impl Default for ChessServer {
    /// A fresh hub: empty registry, no identifier issued yet.
    fn default() -> (r: ChessServer)
        ensures
            r.wf(),
            r.entries() =~= Seq::<Entry>::empty(),
            r.registry() =~= Map::<SessionId, DeliveryHandle>::empty(),
            r.next_id() == 1,
            r.issued() =~= Set::<SessionId>::empty(),
    {
        ChessServer { sessions: Vec::new(), session_id_gen: Default::default() }
    }
}

} // verus!
