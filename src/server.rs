//! The decisions of the connection loop: admitting connections against
//! the limit, stopping on the shutdown signal, draining connections that
//! have requests in flight, and when `listen` may return.
use vstd::prelude::*;

verus! {

/// Whether an accepted socket is served.
#[derive(Clone, Copy, PartialEq, Eq, Structural, Debug)]
pub enum Admission {
    /// Serve it.
    Admit,
    /// Drop it at once.
    Refuse,
}

/// The listener's state: the connection limit, how many connections are
/// being served, and whether the shutdown signal came.
#[derive(Clone, Copy, PartialEq, Eq, Structural, Debug)]
pub struct Listener {
    pub max: Option<usize>,
    pub active: usize,
    pub shutting_down: bool,
}

/// Whether the listener admits one more connection.
pub open spec fn admits(l: Listener) -> bool {
    &&& !l.shutting_down
    &&& l.active < usize::MAX
    &&& match l.max {
        Some(m) => l.active < m,
        None => true,
    }
}

/// The listener after a socket was accepted.
pub open spec fn accept_spec(l: Listener) -> Listener {
    if admits(l) {
        Listener { active: (l.active + 1) as usize, ..l }
    } else {
        l
    }
}

/// The listener after a connection closed.
pub open spec fn close_spec(l: Listener) -> Listener {
    Listener { active: (l.active - 1) as usize, ..l }
}

/// The listener after the shutdown signal.
pub open spec fn shutdown_spec(l: Listener) -> Listener {
    Listener { shutting_down: true, ..l }
}

impl Listener {
    /// A listener with the connection limit `max`, serving nothing.
    pub fn new(max: Option<usize>) -> (r: Listener)
        ensures
            r == (Listener { max, active: 0, shutting_down: false }),
    {
        Listener { max, active: 0, shutting_down: false }
    }

    /// A socket was accepted: admitted while the signal has not come and
    /// the limit is not reached.
    pub fn on_accept(&mut self) -> (r: Admission)
        ensures
            r == (if admits(*old(self)) { Admission::Admit } else { Admission::Refuse }),
            *final(self) == accept_spec(*old(self)),
    {
        if self.shutting_down || self.active == usize::MAX {
            return Admission::Refuse;
        }
        if let Some(m) = self.max {
            if self.active >= m {
                return Admission::Refuse;
            }
        }
        self.active = self.active + 1;
        Admission::Admit
    }

    /// A connection that was admitted closed.
    pub fn on_closed(&mut self)
        requires
            old(self).active > 0,
        ensures
            *final(self) == close_spec(*old(self)),
    {
        self.active = self.active - 1;
    }

    /// The shutdown signal came; it may come more than once.
    pub fn on_shutdown(&mut self)
        ensures
            *final(self) == shutdown_spec(*old(self)),
    {
        self.shutting_down = true;
    }

    /// Whether `listen` may return: the signal came and every connection
    /// closed.
    pub fn may_return(&self) -> (r: bool)
        ensures
            r == (self.shutting_down && self.active == 0),
    {
        self.shutting_down && self.active == 0
    }
}

/// Where a connection stands.
#[derive(Clone, Copy, PartialEq, Eq, Structural, Debug)]
pub enum ConnState {
    /// Reading and answering requests.
    Serving,
    /// Finishing the requests in flight; no further request is taken.
    Draining,
    /// Done.
    Closed,
}

/// What the connection does after a response was written.
#[derive(Clone, Copy, PartialEq, Eq, Structural, Debug)]
pub enum AfterResponse {
    /// Read the next request.
    KeepServing,
    /// Close the connection.
    Close,
}

/// A connection's state: where it stands and how many of its requests are
/// in flight (HTTP/2 serves several at once).
#[derive(Clone, Copy, PartialEq, Eq, Structural, Debug)]
pub struct Connection {
    pub state: ConnState,
    pub in_flight: usize,
}

/// A connection drains only while requests are in flight, and a closed one
/// has none.
pub open spec fn conn_wf(c: Connection) -> bool {
    &&& c.state == ConnState::Draining ==> c.in_flight > 0
    &&& c.state == ConnState::Closed ==> c.in_flight == 0
}

/// Whether the connection takes one more request: it is serving, and the
/// count of requests in flight can grow.
pub open spec fn takes_request(c: Connection) -> bool {
    c.state == ConnState::Serving && c.in_flight < usize::MAX
}

/// The connection after a request it takes begins.
pub open spec fn begin_spec(c: Connection) -> Connection {
    if takes_request(c) {
        Connection { in_flight: (c.in_flight + 1) as usize, ..c }
    } else {
        c
    }
}

/// The connection after the shutdown signal.
pub open spec fn conn_shutdown_spec(c: Connection) -> Connection {
    match c.state {
        ConnState::Serving => if c.in_flight > 0 {
            Connection { state: ConnState::Draining, ..c }
        } else {
            Connection { state: ConnState::Closed, ..c }
        },
        _ => c,
    }
}

/// The connection after the response to one of its requests in flight was
/// written: a draining connection closes with its last one.
pub open spec fn end_spec(c: Connection) -> Connection {
    let n = (c.in_flight - 1) as usize;
    if c.state == ConnState::Draining && n == 0 {
        Connection { state: ConnState::Closed, in_flight: 0 }
    } else {
        Connection { in_flight: n, ..c }
    }
}

/// The connection after `k` of its responses were written in a row.
pub open spec fn ends(c: Connection, k: nat) -> Connection
    decreases k,
{
    if k == 0 {
        c
    } else {
        end_spec(ends(c, (k - 1) as nat))
    }
}

impl Connection {
    /// An admitted connection, serving, with no request yet.
    pub fn new() -> (r: Connection)
        ensures
            r == (Connection { state: ConnState::Serving, in_flight: 0 }),
            conn_wf(r),
    {
        Connection { state: ConnState::Serving, in_flight: 0 }
    }

    /// A request arrived: it is served where the connection is serving,
    /// whatever else is in flight; a draining or closed connection takes no
    /// new request.
    pub fn begin_request(&mut self) -> (r: bool)
        requires
            conn_wf(*old(self)),
        ensures
            r == takes_request(*old(self)),
            *final(self) == begin_spec(*old(self)),
            conn_wf(*final(self)),
    {
        if self.state == ConnState::Serving && self.in_flight < usize::MAX {
            self.in_flight = self.in_flight + 1;
            true
        } else {
            false
        }
    }

    /// The response to one request in flight was written: a draining
    /// connection closes once its last request is answered; otherwise it
    /// goes on.
    pub fn end_request(&mut self) -> (r: AfterResponse)
        requires
            conn_wf(*old(self)),
            old(self).in_flight > 0,
        ensures
            *final(self) == end_spec(*old(self)),
            r == (if final(self).state == ConnState::Closed { AfterResponse::Close } else { AfterResponse::KeepServing }),
            conn_wf(*final(self)),
    {
        self.in_flight = self.in_flight - 1;
        if self.state == ConnState::Draining && self.in_flight == 0 {
            self.state = ConnState::Closed;
            AfterResponse::Close
        } else {
            AfterResponse::KeepServing
        }
    }

    /// The shutdown signal came: a connection with requests in flight
    /// drains, one without closes. Returns whether it is closed now.
    pub fn on_shutdown(&mut self) -> (r: bool)
        requires
            conn_wf(*old(self)),
        ensures
            *final(self) == conn_shutdown_spec(*old(self)),
            r == (final(self).state == ConnState::Closed),
            conn_wf(*final(self)),
    {
        if self.state == ConnState::Serving {
            if self.in_flight > 0 {
                self.state = ConnState::Draining;
            } else {
                self.state = ConnState::Closed;
            }
        }
        self.state == ConnState::Closed
    }

    /// The peer went away or the transport failed.
    pub fn on_peer_closed(&mut self)
        ensures
            *final(self) == (Connection { state: ConnState::Closed, in_flight: 0 }),
    {
        self.state = ConnState::Closed;
        self.in_flight = 0;
    }
}

/// A draining connection with `n` requests in flight stays draining, and
/// takes no new request, until the last of them is answered; then it
/// closes.
pub proof fn lemma_drain(d: Connection, k: nat)
    requires
        d.state == ConnState::Draining,
        d.in_flight > 0,
        k <= d.in_flight,
    ensures
        k < d.in_flight ==> ends(d, k) == (Connection { state: ConnState::Draining, in_flight: (d.in_flight - k) as usize }),
        k < d.in_flight ==> !takes_request(ends(d, k)),
        k == d.in_flight ==> ends(d, k) == (Connection { state: ConnState::Closed, in_flight: 0 }),
    decreases k,
{
    if k > 0 {
        lemma_drain(d, (k - 1) as nat);
    }
}

/// Graceful shutdown. Once the signal came, every socket accepted is
/// refused, and `listen` may return only when no admitted connection is
/// left. A connection with requests in flight when the signal came drains:
/// it takes no further request, each request in flight still gets its
/// response written, and the connection closes with the last of them.
pub proof fn lemma_graceful_shutdown(l: Listener, c: Connection)
    requires
        conn_wf(c),
        c.state == ConnState::Serving,
        c.in_flight > 0,
        l.active > 0,
    ensures
        ({
            let s = shutdown_spec(l);
            &&& !admits(s)
            &&& accept_spec(s) == s
            &&& !(s.shutting_down && s.active == 0)
            &&& close_spec(s).shutting_down
        }),
        ({
            let d = conn_shutdown_spec(c);
            &&& d.state == ConnState::Draining
            &&& d.in_flight == c.in_flight
            &&& !takes_request(d)
            &&& forall|k: nat| k < c.in_flight ==> (#[trigger] ends(d, k)).state == ConnState::Draining
            &&& ends(d, c.in_flight as nat).state == ConnState::Closed
        }),
{
    let d = conn_shutdown_spec(c);
    assert forall|k: nat| k < c.in_flight implies (#[trigger] ends(d, k)).state == ConnState::Draining by {
        lemma_drain(d, k);
    }
    lemma_drain(d, c.in_flight as nat);
}

} // verus!
