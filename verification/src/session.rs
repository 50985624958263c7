use vstd::prelude::*;

use crate::accumulator::FixedAccumulator;
use crate::dispatch::FrameDecoder;
use crate::dispatch::dispatch_frames;
use crate::dispatch::spec_remaining;
use crate::registry::SocketRegistry;

verus! {

/// A reasonable receive-buffer capacity for one multiplexer read; callers
/// may pick any other when they register a session.
pub const DEFAULT_CAPACITY: usize = 512;

/// Which factory path built the session: a server listens and accepts, a
/// client connects out.
#[derive(Clone, Copy, Debug, PartialEq, Eq, Structural)]
pub enum Role {
    Server,
    Client,
}

/// The outcome of one non-blocking look at a session's socket, as the
/// multiplexer reports it: the socket is not readable right now, a chunk
/// of freshly received bytes arrived, or the receive call reported zero or
/// less — the peer closed the connection or the socket erred.
pub enum SocketEvent {
    NotReady,
    Data(Vec<u8>),
    Closed,
}

/// The outcome of one non-blocking look at a listening socket: nothing
/// pending, a pending connection accepted as a fresh socket handle, or an
/// accept call that failed.
pub enum AcceptEvent {
    NotReady,
    Incoming(u64),
    Refused,
}

/// One TCP connection: its fixed-capacity receive accumulator, the socket
/// handle it reads from, its role, and whether it is still open.  The
/// socket itself is registered in a `SocketRegistry` shared with every
/// sibling session.
pub struct Session {
    acc: FixedAccumulator,
    role: Role,
    open: bool,
    socket: u64,
}

impl Session {
    /// The unconsumed received bytes, oldest first.
    pub closed spec fn contents(&self) -> Seq<u8> {
        self.acc.contents()
    }

    /// The fixed capacity of the receive accumulator.
    pub closed spec fn cap(&self) -> nat {
        self.acc.cap()
    }

    /// Which factory path built the session.
    pub closed spec fn role_spec(&self) -> Role {
        self.role
    }

    /// Is the session still open (not yet torn down)?
    pub closed spec fn open_spec(&self) -> bool {
        self.open
    }

    /// The socket handle the session reads from.
    pub closed spec fn socket_spec(&self) -> u64 {
        self.socket
    }

    /// Well-formedness of the receive accumulator.
    pub closed spec fn wf(&self) -> bool {
        self.acc.wf()
    }

    /// Creates an open session for `socket` with an empty receive
    /// accumulator of the given capacity, and registers the socket into
    /// the shared registry — the last step of both factory paths.  Fails,
    /// changing nothing, exactly when the registry has no room left for
    /// this socket.
    pub fn register(socket: u64, role: Role, capacity: usize, registry: &mut SocketRegistry) -> (r:
        Option<Session>)
        requires
            old(registry).wf(),
        ensures
            final(registry).wf(),
            final(registry).limit() == old(registry).limit(),
            match r {
                Some(s) => {
                    &&& s.wf()
                    &&& s.contents() == Seq::<u8>::empty()
                    &&& s.cap() == capacity as nat
                    &&& s.role_spec() == role
                    &&& s.open_spec()
                    &&& s.socket_spec() == socket
                    &&& final(registry).has(socket)
                    &&& forall|x: u64|
                        x != socket ==> final(registry).has(x) == old(registry).has(x)
                },
                None => {
                    &&& !old(registry).has(socket)
                    &&& old(registry).size() >= old(registry).limit()
                    &&& *final(registry) == *old(registry)
                },
            },
            r is Some <==> (old(registry).has(socket) || old(registry).size() < old(
                registry,
            ).limit()),
    {
        if registry.add(socket) {
            Some(Session { acc: FixedAccumulator::new(capacity), role, open: true, socket })
        } else {
            None
        }
    }

    /// How many unconsumed bytes the session has buffered.
    pub fn remaining(&self) -> (n: usize)
        requires
            self.wf(),
        ensures
            n == self.contents().len(),
    {
        self.acc.remaining()
    }

    /// Which factory path built the session.
    pub fn role(&self) -> (r: Role)
        ensures
            r == self.role_spec(),
    {
        self.role
    }

    /// Is the session still open?
    pub fn is_open(&self) -> (r: bool)
        ensures
            r == self.open_spec(),
    {
        self.open
    }

    /// The socket handle the session reads from.
    pub fn socket_id(&self) -> (r: u64)
        ensures
            r == self.socket_spec(),
    {
        self.socket
    }

    /// The first buffered byte, without consuming it; `None` exactly when
    /// nothing is buffered.
    pub fn peek_byte(&self) -> (r: Option<u8>)
        requires
            self.wf(),
        ensures
            match r {
                Some(b) => self.contents().len() > 0 && b == self.contents()[0],
                None => self.contents().len() == 0,
            },
    {
        self.acc.peek_front()
    }

    /// Consumes and returns the first buffered byte; `None`, with nothing
    /// changed, exactly when nothing is buffered.
    pub fn read_byte(&mut self) -> (r: Option<u8>)
        requires
            old(self).wf(),
        ensures
            final(self).wf(),
            final(self).cap() == old(self).cap(),
            final(self).role_spec() == old(self).role_spec(),
            final(self).open_spec() == old(self).open_spec(),
            final(self).socket_spec() == old(self).socket_spec(),
            match r {
                Some(b) => {
                    &&& old(self).contents().len() > 0
                    &&& b == old(self).contents()[0]
                    &&& final(self).contents() == old(self).contents().skip(1)
                },
                None => {
                    &&& old(self).contents().len() == 0
                    &&& final(self).contents() == old(self).contents()
                },
            },
    {
        match self.acc.peek_front() {
            Some(b) => {
                self.acc.consume_front(1);
                Some(b)
            },
            None => None,
        }
    }

    /// Deregisters the socket from the shared registry and marks the
    /// session closed.  Idempotent: on an already-closed session nothing
    /// changes at all.
    pub fn close(&mut self, registry: &mut SocketRegistry)
        requires
            old(self).wf(),
            old(registry).wf(),
        ensures
            final(self).wf(),
            final(registry).wf(),
            final(registry).limit() == old(registry).limit(),
            final(self).cap() == old(self).cap(),
            final(self).role_spec() == old(self).role_spec(),
            final(self).socket_spec() == old(self).socket_spec(),
            final(self).contents() == old(self).contents(),
            !final(self).open_spec(),
            old(self).open_spec() ==> {
                &&& !final(registry).has(old(self).socket_spec())
                &&& forall|x: u64|
                    x != old(self).socket_spec() ==> final(registry).has(x) == old(
                        registry,
                    ).has(x)
            },
            !old(self).open_spec() ==> {
                &&& *final(self) == *old(self)
                &&& *final(registry) == *old(registry)
            },
    {
        if !self.open {
            return ;
        }
        registry.remove(self.socket);
        self.open = false;
    }

    /// Advances the session by one multiplexer cycle.  The caller reports
    /// what its one non-blocking look at the socket produced; this routine
    /// makes every decision that follows: a closed or erred socket tears
    /// the session down (deregister, mark closed); freshly received bytes
    /// are appended — a chunk that cannot fit the fixed capacity is a
    /// fatal per-connection fault and also tears the session down — and
    /// the frame dispatch loop then runs the decoder over the buffered
    /// bytes until its readiness predicate rejects.  Returns `false`
    /// exactly when the session is closed afterwards.
    pub fn read_and_dispatch<D: FrameDecoder>(
        &mut self,
        registry: &mut SocketRegistry,
        event: SocketEvent,
        decoder: &mut D,
    ) -> (alive: bool)
        requires
            old(self).wf(),
            old(registry).wf(),
        ensures
            final(self).wf(),
            final(registry).wf(),
            final(registry).limit() == old(registry).limit(),
            final(self).cap() == old(self).cap(),
            final(self).role_spec() == old(self).role_spec(),
            final(self).socket_spec() == old(self).socket_spec(),
            alive == final(self).open_spec(),
            forall|f: u8, c: nat|
                #[trigger] final(decoder).ready(f, c) == old(decoder).ready(f, c),
            forall|s: Seq<u8>|
                #[trigger] final(decoder).frame_len(s) == old(decoder).frame_len(s),
            !old(self).open_spec() ==> {
                &&& !alive
                &&& *final(self) == *old(self)
                &&& *final(registry) == *old(registry)
                &&& *final(decoder) == *old(decoder)
            },
            old(self).open_spec() ==> match event {
                SocketEvent::NotReady => {
                    &&& alive
                    &&& *final(self) == *old(self)
                    &&& *final(registry) == *old(registry)
                    &&& *final(decoder) == *old(decoder)
                },
                SocketEvent::Closed => {
                    &&& !alive
                    &&& final(self).contents() == old(self).contents()
                    &&& !final(registry).has(old(self).socket_spec())
                    &&& forall|x: u64|
                        x != old(self).socket_spec() ==> final(registry).has(x) == old(
                            registry,
                        ).has(x)
                    &&& *final(decoder) == *old(decoder)
                },
                SocketEvent::Data(bytes) => if old(self).contents().len() + bytes@.len() <= old(
                    self,
                ).cap() {
                    &&& alive
                    &&& final(self).contents() == spec_remaining(
                        *old(decoder),
                        old(self).contents() + bytes@,
                    )
                    &&& *final(registry) == *old(registry)
                } else {
                    &&& !alive
                    &&& final(self).contents() == old(self).contents()
                    &&& !final(registry).has(old(self).socket_spec())
                    &&& forall|x: u64|
                        x != old(self).socket_spec() ==> final(registry).has(x) == old(
                            registry,
                        ).has(x)
                    &&& *final(decoder) == *old(decoder)
                },
            },
    {
        if !self.open {
            return false;
        }
        match event {
            SocketEvent::NotReady => true,
            SocketEvent::Closed => {
                registry.remove(self.socket);
                self.open = false;
                false
            },
            SocketEvent::Data(bytes) => {
                match self.acc.append(bytes.as_slice()) {
                    Ok(()) => {
                        let _invocations = dispatch_frames(&mut self.acc, decoder);
                        true
                    },
                    Err(_) => {
                        registry.remove(self.socket);
                        self.open = false;
                        false
                    },
                }
            },
        }
    }
}

/// The server factory's shared socket set: room for the listening socket
/// itself plus the expected number of clients.
pub fn server_registry(expected_clients: u32) -> (r: SocketRegistry)
    requires
        expected_clients as nat + 1 <= usize::MAX as nat,
    ensures
        r.wf(),
        r.size() == 0,
        r.limit() == expected_clients as nat + 1,
        forall|x: u64| !r.has(x),
{
    SocketRegistry::new(expected_clients as usize + 1)
}

/// The client factory's socket set: room for exactly the one connected
/// socket.
pub fn client_registry() -> (r: SocketRegistry)
    ensures
        r.wf(),
        r.size() == 0,
        r.limit() == 1,
        forall|x: u64| !r.has(x),
{
    SocketRegistry::new(1)
}

/// The accept path of the server factory: given the outcome of one
/// non-blocking look at the listening socket, admits the pending
/// connection into the shared registry and hands its socket back.  Returns
/// a socket exactly when the session is a server's, a pending connection
/// was accepted, and the registry could take it; the caller wraps that
/// socket in its own session sharing the same registry.
pub fn accept_new_client(session: &Session, registry: &mut SocketRegistry, event: AcceptEvent) -> (r:
    Option<u64>)
    requires
        old(registry).wf(),
    ensures
        final(registry).wf(),
        final(registry).limit() == old(registry).limit(),
        match r {
            Some(id) => {
                &&& session.role_spec() == Role::Server
                &&& event == AcceptEvent::Incoming(id)
                &&& final(registry).has(id)
                &&& forall|x: u64| x != id ==> final(registry).has(x) == old(registry).has(x)
            },
            None => *final(registry) == *old(registry),
        },
        session.role_spec() == Role::Server ==> match event {
            AcceptEvent::Incoming(id) => if old(registry).has(id) || old(registry).size() < old(
                registry,
            ).limit() {
                r == Some(id)
            } else {
                r is None
            },
            _ => r is None,
        },
        session.role_spec() != Role::Server ==> r is None,
{
    if session.role() != Role::Server {
        return None;
    }
    match event {
        AcceptEvent::Incoming(id) => {
            if registry.add(id) {
                Some(id)
            } else {
                None
            }
        },
        _ => None,
    }
}

} // verus!
