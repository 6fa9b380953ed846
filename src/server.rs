//! The server's side of a connection: registration, routing of each inbound
//! read, teardown, and the shutdown broadcast.
use crate::envelope::{encoding, local_time_stamp, read_chunk, Chunk, EnvelopeView, Message};
use crate::identity::ArcString;
use crate::registry::{handle_of, inserted, keys_unique, removed, Registry};
use crate::router::{delivered_as, notice, route_at, routing, server_name, Delivery};
use crate::text::{lossy_text, text_of_bytes, trim_spec, trimmed};
use vstd::prelude::*;

verus! {

/// What became of one read from a registered connection.
pub enum Inbound {
    /// The peer closed the connection.
    Closed,
    /// The bytes were not an envelope; the connection stays open.
    Malformed,
    /// An envelope was routed: at most one delivery to make.
    Routed(Option<Delivery>),
}

/// The text of the notice sent to every user when the server shuts down.
pub open spec fn shutdown_text() -> Seq<char> {
    "服务器即将关闭，所有用户已断开连接"@
}

/// The identity named by a connection's first read: the text of the bytes
/// without surrounding white space. No bytes means the peer left before
/// registering.
pub fn registration_identity(payload: &[u8]) -> (r: Option<ArcString>)
    ensures
        payload@.len() == 0 <==> r is None,
        r matches Some(id) ==> id@ == trim_spec(lossy_text(payload@)),
{
    if payload.len() == 0 {
        return None;
    }
    let text = text_of_bytes(payload);
    Some(ArcString::new(trimmed(text.as_str())))
}

/// The chat server's shared state: the registry of online users, each with the
/// handle of its connection's outbound channel.
pub struct Server<C> {
    online_users: Registry<C>,
}

impl<C> View for Server<C> {
    type V = Seq<(Seq<char>, C)>;

    closed spec fn view(&self) -> Seq<(Seq<char>, C)> {
        self.online_users@
    }
}

impl<C> Default for Server<C> {
    fn default() -> (r: Server<C>)
        ensures
            r.wf(),
            r@ == Seq::<(Seq<char>, C)>::empty(),
    {
        Server::new()
    }
}

impl<C> Server<C> {
    /// No identity is registered twice.
    pub open spec fn wf(&self) -> bool {
        keys_unique(self@)
    }

    /// A server with nobody online.
    pub fn new() -> (r: Server<C>)
        ensures
            r.wf(),
            r@ == Seq::<(Seq<char>, C)>::empty(),
    {
        Server { online_users: Registry::new() }
    }

    /// The registry of online users.
    pub fn registry(&self) -> (r: &Registry<C>)
        ensures
            r@ == self@,
    {
        &self.online_users
    }

    /// The outbound handle of `id`, if it is online.
    pub fn lookup(&self, id: &str) -> (r: Option<&C>)
        requires
            self.wf(),
        ensures
            match r {
                Some(c) => handle_of(self@, id@) == Some(*c),
                None => handle_of(self@, id@) is None,
            },
    {
        self.online_users.lookup(id)
    }

    /// Puts `id` online with the outbound handle `handle`, replacing any
    /// handle it had.
    pub fn register(&mut self, id: ArcString, handle: C)
        requires
            old(self).wf(),
        ensures
            final(self).wf(),
            final(self)@ == inserted(old(self)@, id@, handle),
    {
        self.online_users.insert(id, handle);
    }

    /// Takes `id` offline when its connection closes.
    pub fn disconnect(&mut self, id: &ArcString)
        requires
            old(self).wf(),
        ensures
            final(self).wf(),
            final(self)@ == removed(old(self)@, id@),
    {
        self.online_users.remove(id.as_str());
    }

    /// Handles one read from `sender`'s connection; notices that the server
    /// writes carry `time_stamp`.
    pub fn handle_chunk_at(&self, sender: &ArcString, chunk: &[u8], time_stamp: String) -> (r:
        Inbound)
        requires
            self.wf(),
        ensures
            chunk@.len() == 0 <==> r is Closed,
            chunk@.len() > 0 ==> (r is Malformed <==> forall|e: EnvelopeView|
                encoding(e) != lossy_text(chunk@)),
            r matches Inbound::Routed(d) ==> exists|e: EnvelopeView|
                encoding(e) == lossy_text(chunk@) && delivered_as(
                    d,
                    routing(self@, sender@, e, time_stamp@),
                ),
    {
        match read_chunk(chunk) {
            Chunk::Closed => Inbound::Closed,
            Chunk::Malformed => Inbound::Malformed,
            Chunk::Envelope(m) => {
                let ghost e = m@;
                let d = route_at(&self.online_users, sender, m, time_stamp);
                assert(encoding(e) == lossy_text(chunk@));
                Inbound::Routed(d)
            },
        }
    }

    /// Handles one read from `sender`'s connection; notices that the server
    /// writes carry the local time now.
    pub fn handle_chunk(&self, sender: &ArcString, chunk: &[u8]) -> (r: Inbound)
        requires
            self.wf(),
        ensures
            chunk@.len() == 0 <==> r is Closed,
            chunk@.len() > 0 ==> (r is Malformed <==> forall|e: EnvelopeView|
                encoding(e) != lossy_text(chunk@)),
            r matches Inbound::Routed(d) ==> exists|e: EnvelopeView, time_stamp: Seq<char>|
                encoding(e) == lossy_text(chunk@) && delivered_as(
                    d,
                    routing(self@, sender@, e, time_stamp),
                ),
    {
        let time_stamp = local_time_stamp();
        let ghost ts = time_stamp@;
        let r = self.handle_chunk_at(sender, chunk, time_stamp);
        proof {
            if r is Routed {
                let d = r->Routed_0;
                let e = choose|e: EnvelopeView|
                    encoding(e) == lossy_text(chunk@) && delivered_as(d, routing(self@, sender@, e, ts));
                assert(encoding(e) == lossy_text(chunk@) && delivered_as(d, routing(self@, sender@, e, ts)));
            }
        }
        r
    }

    /// Shuts down: one server notice carrying `time_stamp` for every online
    /// user, in registry order, and then nobody is online.
    pub fn shutdown_at(&mut self, time_stamp: String) -> (r: Vec<Delivery>)
        requires
            old(self).wf(),
        ensures
            final(self).wf(),
            final(self)@ == Seq::<(Seq<char>, C)>::empty(),
            r@.len() == old(self)@.len(),
            forall|i: int|
                0 <= i < r@.len() ==> (#[trigger] r@[i])@ == (
                    old(self)@[i].0,
                    notice(old(self)@[i].0, time_stamp@, shutdown_text()),
                ),
    {
        let ids = self.online_users.snapshot_identities();
        let mut out: Vec<Delivery> = Vec::new();
        let mut i: usize = 0;
        while i < ids.len()
            invariant
                i <= ids.len(),
                ids@.len() == self@.len(),
                self@ == old(self)@,
                forall|j: int| 0 <= j < ids@.len() ==> #[trigger] ids@[j]@ == self@[j].0,
                out@.len() == i,
                forall|j: int|
                    0 <= j < i ==> (#[trigger] out@[j])@ == (
                        self@[j].0,
                        notice(self@[j].0, time_stamp@, shutdown_text()),
                    ),
            decreases ids.len() - i,
        {
            let id = &ids[i];
            let env = Message::with_time_stamp(
                ArcString::new("Server".to_owned()),
                id.get(),
                time_stamp.clone(),
                "服务器即将关闭，所有用户已断开连接".to_owned(),
            );
            out.push(Delivery { target: id.share(), envelope: env });
            i = i + 1;
        }
        self.online_users.clear();
        out
    }

    /// Shuts down: one server notice stamped with the local time for every
    /// online user, in registry order, and then nobody is online.
    pub fn shutdown(&mut self) -> (r: Vec<Delivery>)
        requires
            old(self).wf(),
        ensures
            final(self).wf(),
            final(self)@ == Seq::<(Seq<char>, C)>::empty(),
            r@.len() == old(self)@.len(),
            forall|i: int|
                0 <= i < r@.len() ==> (#[trigger] r@[i]).target@ == old(self)@[i].0 && r@[i].envelope@.from
                    == server_name() && r@[i].envelope@.to == old(self)@[i].0
                    && r@[i].envelope@.content == shutdown_text(),
    {
        let time_stamp = local_time_stamp();
        self.shutdown_at(time_stamp)
    }
}

} // verus!
