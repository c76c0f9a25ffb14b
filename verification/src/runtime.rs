//! The decisions of the server around the request handlers: its configuration, the numbering
//! of connections and what an interrupt does to the running server.

use vstd::prelude::*;

verus! {

/// The most detailed tracing level the application logs at.
#[derive(Clone, Copy, Debug, PartialEq, Eq, Structural)]
pub enum TraceLevel {
    Trace,
    Info,
}

/// Verbose runs trace everything; others log from the info level up.
pub fn log_level(verbose: bool) -> (r: TraceLevel)
    ensures
        r == (if verbose { TraceLevel::Trace } else { TraceLevel::Info }),
{
    if verbose {
        TraceLevel::Trace
    } else {
        TraceLevel::Info
    }
}

/// The IPv6 address, as eight 16-bit segments, that maps the IPv4 address `octets`
/// (`::ffff:a.b.c.d`); the server binds to it so that it accepts both kinds of clients.
pub open spec fn ipv6_mapped_spec(octets: [u8; 4]) -> Seq<u16> {
    seq![
        0u16,
        0u16,
        0u16,
        0u16,
        0u16,
        0xffffu16,
        (octets[0] * 256 + octets[1]) as u16,
        (octets[2] * 256 + octets[3]) as u16,
    ]
}

/// The segments of the IPv4-mapped IPv6 address of `octets`.
pub fn ipv6_mapped(octets: [u8; 4]) -> (r: [u16; 8])
    ensures
        r@ == ipv6_mapped_spec(octets),
        r[0] == 0 && r[1] == 0 && r[2] == 0 && r[3] == 0 && r[4] == 0,
        r[5] == 0xffff,
        r[6] as int == octets[0] * 256 + octets[1],
        r[7] as int == octets[2] * 256 + octets[3],
{
    let high = (octets[0] as u16) * 256 + (octets[1] as u16);
    let low = (octets[2] as u16) * 256 + (octets[3] as u16);
    let r = [0u16, 0u16, 0u16, 0u16, 0u16, 0xffffu16, high, low];
    assert(r@ =~= ipv6_mapped_spec(octets));
    r
}

/// Hands out the IDs of accepted connections, counting up from zero and wrapping around.
pub struct ConnectionIds {
    next: u64,
}

impl View for ConnectionIds {
    type V = u64;

    closed spec fn view(&self) -> u64 {
        self.next
    }
}

impl ConnectionIds {
    pub fn new() -> (r: ConnectionIds)
        ensures
            r@ == 0,
    {
        ConnectionIds { next: 0 }
    }

    /// The ID of the connection just accepted.
    pub fn next_id(&mut self) -> (r: u64)
        ensures
            r == old(self)@,
            final(self)@ == (if old(self)@ == u64::MAX { 0 } else { (old(self)@ + 1) as u64 }),
    {
        let id = self.next;
        self.next = if self.next == u64::MAX {
            0
        } else {
            self.next + 1
        };
        id
    }
}

/// What ends the wait on the running server: the server task ends (with its output `T`, or
/// the error `J` of joining it), or an interrupt arrives (or the error `I` of listening for
/// one).
pub enum StopEvent<T, J, I> {
    TaskEnded(Result<T, J>),
    Interrupted(Result<(), I>),
}

/// Why waiting on the running server failed.
pub enum HandleError<J, I> {
    Io(I),
    Join(J),
}

/// What to do once the wait ends: whether to abort the server task, and what to report.
pub struct StopAction<T, J, I> {
    pub abort: bool,
    pub result: Result<Option<T>, HandleError<J, I>>,
}

/// A server task that ends reports its output (or its join error); an interrupt aborts the
/// task and reports no output (or the error of listening for the interrupt).
pub open spec fn stop_action_spec<T, J, I>(event: StopEvent<T, J, I>) -> StopAction<T, J, I> {
    match event {
        StopEvent::TaskEnded(Ok(t)) => StopAction { abort: false, result: Ok(Some(t)) },
        StopEvent::TaskEnded(Err(j)) => StopAction { abort: false, result: Err(HandleError::Join(j)) },
        StopEvent::Interrupted(Ok(())) => StopAction { abort: true, result: Ok(None) },
        StopEvent::Interrupted(Err(i)) => StopAction { abort: true, result: Err(HandleError::Io(i)) },
    }
}

/// Decides what an interrupt or the end of the server task leads to.
pub fn stop_action<T, J, I>(event: StopEvent<T, J, I>) -> (r: StopAction<T, J, I>)
    ensures
        r == stop_action_spec(event),
{
    match event {
        StopEvent::TaskEnded(Ok(t)) => StopAction { abort: false, result: Ok(Some(t)) },
        StopEvent::TaskEnded(Err(j)) => StopAction { abort: false, result: Err(HandleError::Join(j)) },
        StopEvent::Interrupted(Ok(())) => StopAction { abort: true, result: Ok(None) },
        StopEvent::Interrupted(Err(i)) => StopAction { abort: true, result: Err(HandleError::Io(i)) },
    }
}

} // verus!
