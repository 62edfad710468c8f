//! The connection facade's decisions: connection state, the bounded inbound queue, the
//! outbound queue, and the address to dial.

use vstd::prelude::*;

use vstd::string::StringSliceAdditionalSpecFns;

use crate::sniffer::Direction;

verus! {

/// The state of a connection.
#[derive(Clone, Copy, Debug, PartialEq, Eq, Structural)]
pub enum ConnectionState {
    Disconnected,
    Connecting,
    /// Connected since the given second.
    Connected(u64),
    TransferActive(Direction),
}

/// Sending is allowed only while connected or transferring.
pub open spec fn send_allowed(s: ConnectionState) -> bool {
    match s {
        ConnectionState::Connected(_) | ConnectionState::TransferActive(_) => true,
        _ => false,
    }
}

pub fn can_send(s: ConnectionState) -> (r: bool)
    ensures
        r == send_allowed(s),
{
    match s {
        ConnectionState::Connected(_) | ConnectionState::TransferActive(_) => true,
        _ => false,
    }
}

/// `b` holds a colon, the separator of a port.
pub open spec fn has_port(b: Seq<u8>) -> bool {
    exists|i: int| 0 <= i < b.len() && b[i] == 0x3a
}

/// The address to dial: as given where it names a port, else with Telnet's port 23 added.
pub fn dial_address(address: &str) -> (r: String)
    ensures
        r@ == (if has_port(address.spec_bytes()) {
            address@
        } else {
            address@ + ":23"@
        }),
{
    let b = address.as_bytes();
    let mut i: usize = 0;
    while i < b.len()
        invariant
            i <= b@.len(),
            b@ == address.spec_bytes(),
            forall|k: int| 0 <= k < i ==> b@[k] != 0x3a,
        decreases b@.len() - i,
    {
        if b[i] == 0x3a {
            return String::from_str(address);
        }
        i += 1;
    }
    let mut r = String::from_str(address);
    r.append(":23");
    r
}

/// The decisions of the connection facade: its state, the inbound bytes waiting for the
/// terminal (a bounded queue) and the outbound bytes waiting for the transport. The
/// background task does the I/O and reports it here.
pub struct Connection {
    state: ConnectionState,
    /// When the connection came up, in seconds.
    since: u64,
    inbound: Vec<u8>,
    outbound: Vec<u8>,
    capacity: usize,
}

impl Connection {
    pub closed spec fn state(&self) -> ConnectionState {
        self.state
    }

    pub closed spec fn inbound(&self) -> Seq<u8> {
        self.inbound@
    }

    pub closed spec fn outbound(&self) -> Seq<u8> {
        self.outbound@
    }

    pub closed spec fn capacity(&self) -> nat {
        self.capacity as nat
    }

    pub closed spec fn wf(&self) -> bool {
        self.inbound@.len() <= self.capacity
    }

    /// A connection that is down, whose inbound queue holds at most `capacity` bytes.
    pub fn new(capacity: usize) -> (r: Self)
        ensures
            r.wf(),
            r.state() == ConnectionState::Disconnected,
            r.inbound().len() == 0,
            r.outbound().len() == 0,
            r.capacity() == capacity,
    {
        Connection {
            state: ConnectionState::Disconnected,
            since: 0,
            inbound: Vec::new(),
            outbound: Vec::new(),
            capacity,
        }
    }

    pub fn state_exec(&self) -> (r: ConnectionState)
        ensures
            r == self.state(),
    {
        self.state
    }

    pub fn is_connected(&self) -> (r: bool)
        ensures
            r == send_allowed(self.state()),
    {
        match self.state {
            ConnectionState::Connected(_) | ConnectionState::TransferActive(_) => true,
            _ => false,
        }
    }

    pub fn is_disconnected(&self) -> (r: bool)
        ensures
            r == (self.state() == ConnectionState::Disconnected),
    {
        matches!(self.state, ConnectionState::Disconnected)
    }

    pub fn is_data_available(&self) -> (r: bool)
        ensures
            r == (self.inbound().len() > 0),
    {
        self.inbound.len() > 0
    }

    /// A connect was started: only from the disconnected state.
    pub fn start_connect(&mut self) -> (r: bool)
        requires
            old(self).wf(),
        ensures
            final(self).wf(),
            r == (old(self).state() == ConnectionState::Disconnected),
            r ==> final(self).state() == ConnectionState::Connecting,
            !r ==> final(self).state() == old(self).state(),
            final(self).inbound() == old(self).inbound(),
            final(self).outbound() == old(self).outbound(),
    {
        if matches!(self.state, ConnectionState::Disconnected) {
            self.state = ConnectionState::Connecting;
            true
        } else {
            false
        }
    }

    /// The transport came up at second `now`.
    pub fn on_connected(&mut self, now: u64)
        requires
            old(self).wf(),
        ensures
            final(self).wf(),
            old(self).state() == ConnectionState::Connecting ==> final(self).state()
                == ConnectionState::Connected(now),
            old(self).state() != ConnectionState::Connecting
                ==> final(self).state() == old(self).state(),
            final(self).inbound() == old(self).inbound(),
            final(self).outbound() == old(self).outbound(),
    {
        if matches!(self.state, ConnectionState::Connecting) {
            self.state = ConnectionState::Connected(now);
            self.since = now;
        }
    }

    /// Any failure, or a hang-up: the connection is down and what was queued is dropped.
    pub fn on_failure(&mut self)
        ensures
            final(self).wf(),
            final(self).state() == ConnectionState::Disconnected,
            final(self).inbound().len() == 0,
            final(self).outbound().len() == 0,
            final(self).capacity() == old(self).capacity(),
    {
        self.state = ConnectionState::Disconnected;
        self.inbound = Vec::new();
        self.outbound = Vec::new();
    }

    /// Bytes came from the transport. While connected (not transferring) they are queued
    /// for the terminal as far as the queue has room; the count taken comes back, and the
    /// rest is left unread with the transport.
    pub fn push_inbound(&mut self, data: &[u8]) -> (r: usize)
        requires
            old(self).wf(),
        ensures
            final(self).wf(),
            final(self).state() == old(self).state(),
            final(self).outbound() == old(self).outbound(),
            old(self).state() is Connected ==> r == (if data@.len() <= old(self).capacity()
                - old(self).inbound().len() {
                data@.len() as int
            } else {
                old(self).capacity() - old(self).inbound().len()
            }),
            !(old(self).state() is Connected) ==> r == 0,
            final(self).inbound() == old(self).inbound() + data@.take(r as int),
    {
        let room = self.capacity - self.inbound.len();
        let n: usize = match self.state {
            ConnectionState::Connected(_) => if data.len() <= room {
                data.len()
            } else {
                room
            },
            _ => 0,
        };
        let mut i: usize = 0;
        let ghost start = self.inbound@;
        while i < n
            invariant
                i <= n <= data@.len(),
                n <= room,
                room == self.capacity - start.len(),
                self.inbound@ == start + data@.take(i as int),
                self.capacity == old(self).capacity,
                self.state == old(self).state,
                self.outbound == old(self).outbound,
            decreases n - i,
        {
            self.inbound.push(data[i]);
            i += 1;
            proof {
                assert(self.inbound@ =~= start + data@.take(i as int));
            }
        }
        n
    }

    /// Drains what has queued for the terminal since the last call; never waits.
    pub fn read_buffer(&mut self) -> (r: Vec<u8>)
        requires
            old(self).wf(),
        ensures
            final(self).wf(),
            r@ == old(self).inbound(),
            final(self).inbound().len() == 0,
            final(self).state() == old(self).state(),
            final(self).outbound() == old(self).outbound(),
    {
        let mut r: Vec<u8> = Vec::new();
        std::mem::swap(&mut r, &mut self.inbound);
        r
    }

    /// Queues bytes for the host: only while connected or transferring.
    pub fn send(&mut self, data: &[u8]) -> (r: bool)
        requires
            old(self).wf(),
        ensures
            final(self).wf(),
            r == send_allowed(old(self).state()),
            final(self).outbound() == (if r {
                old(self).outbound() + data@
            } else {
                old(self).outbound()
            }),
            final(self).state() == old(self).state(),
            final(self).inbound() == old(self).inbound(),
    {
        if self.is_connected() {
            self.outbound.extend_from_slice(data);
            true
        } else {
            false
        }
    }

    /// Hands the queued outbound bytes to the transport.
    pub fn take_outbound(&mut self) -> (r: Vec<u8>)
        requires
            old(self).wf(),
        ensures
            final(self).wf(),
            r@ == old(self).outbound(),
            final(self).outbound().len() == 0,
            final(self).state() == old(self).state(),
            final(self).inbound() == old(self).inbound(),
    {
        let mut r: Vec<u8> = Vec::new();
        std::mem::swap(&mut r, &mut self.outbound);
        r
    }

    /// A transfer takes the connection over: only from the connected state.
    pub fn start_transfer(&mut self, direction: Direction) -> (r: bool)
        requires
            old(self).wf(),
        ensures
            final(self).wf(),
            r == (old(self).state() is Connected),
            r ==> final(self).state() == ConnectionState::TransferActive(direction),
            !r ==> final(self).state() == old(self).state(),
            final(self).inbound() == old(self).inbound(),
            final(self).outbound() == old(self).outbound(),
    {
        if matches!(self.state, ConnectionState::Connected(_)) {
            self.state = ConnectionState::TransferActive(direction);
            true
        } else {
            false
        }
    }

    /// The transfer gave the connection back.
    pub fn end_transfer(&mut self)
        requires
            old(self).wf(),
        ensures
            final(self).wf(),
            old(self).state() is TransferActive ==> final(self).state() is Connected,
            !(old(self).state() is TransferActive) ==> final(self).state() == old(self).state(),
            final(self).inbound() == old(self).inbound(),
            final(self).outbound() == old(self).outbound(),
    {
        if matches!(self.state, ConnectionState::TransferActive(_)) {
            self.state = ConnectionState::Connected(self.since);
        }
    }
}

} // verus!
