//! The server's per-datagram behaviour and the cooperative task model.
//!
//! The minimal server answers every inbound datagram by sending its whole
//! receive buffer back — the payload padded with zero bytes to the buffer
//! length.  Each server task (the connection, the timer) advances in single
//! steps that either ask to be retried later or declare themselves done;
//! the reactor loop that performs the socket calls lives outside and feeds
//! the outcomes back in.

use vstd::prelude::*;

verus! {

/// The UDP port the server listens on.
pub const SERVER_PORT: u16 = 7777;

/// The server's receive buffer length: inbound payloads longer than this
/// are truncated, and every echo reply is exactly this long.
pub const SERVER_RECV_BUF_LEN: usize = 1024;

/// The client's receive buffer length; longer snapshots are truncated.
pub const CLIENT_RECV_BUF_LEN: usize = 4096;

/// The echo reply for a payload: the payload itself, padded with zero
/// bytes to the full receive-buffer length.
pub open spec fn spec_echo_reply(p: Seq<u8>) -> Seq<u8> {
    p + Seq::<u8>::new((SERVER_RECV_BUF_LEN - p.len()) as nat, |k: int| 0u8)
}

/// What the minimal server sends back for one inbound datagram: its whole
/// receive buffer, that is the payload followed by zeroes up to the buffer
/// length.  The payload fits the buffer because that is all a receive can
/// yield.
pub fn echo_reply(payload: &Vec<u8>) -> (r: Vec<u8>)
    requires
        payload@.len() <= SERVER_RECV_BUF_LEN,
    ensures
        r@ == spec_echo_reply(payload@),
        r@.len() == SERVER_RECV_BUF_LEN,
{
    let mut r: Vec<u8> = Vec::new();
    let n = payload.len();
    for i in 0..n
        invariant
            n == payload@.len() <= SERVER_RECV_BUF_LEN,
            r@ == payload@.take(i as int),
    {
        r.push(payload[i]);
        proof {
            assert(r@ =~= payload@.take(i + 1));
        }
    }
    proof {
        assert(payload@.take(n as int) =~= payload@);
    }
    while r.len() < SERVER_RECV_BUF_LEN
        invariant
            payload@.len() <= r@.len() <= SERVER_RECV_BUF_LEN,
            r@.take(payload@.len() as int) == payload@,
            forall|k: int| payload@.len() <= k < r@.len() ==> r@[k] == 0u8,
        decreases SERVER_RECV_BUF_LEN - r@.len(),
    {
        r.push(0);
        proof {
            assert(r@.take(payload@.len() as int) =~= payload@);
        }
    }
    proof {
        assert(r@ =~= spec_echo_reply(payload@));
    }
    r
}

/// How one socket call went, as the reactor reports it: it completed, it
/// would have blocked, or it failed hard.
#[derive(Copy, Clone, Debug, PartialEq, Eq, Structural)]
pub enum IoEvent {
    Ready,
    WouldBlock,
    Failed,
}

/// What a task's single step asks of the reactor: keep the task scheduled
/// and retry it later, or deregister it for good.
#[derive(Copy, Clone, Debug, PartialEq, Eq, Structural)]
pub enum TaskStep {
    Retry,
    Done,
}

/// One step of the connection task, seen from its receive attempt: either
/// a datagram arrived (and a reply send was attempted, with its own
/// outcome), or the receive would have blocked, or it failed hard.
pub enum ConnEvent {
    Received(IoEvent),
    RecvWouldBlock,
    RecvFailed,
}

/// The connection task's decision: it stays scheduled as long as its
/// sockets merely have nothing for it (would-block is routine, and a
/// completed echo waits for the next datagram); only a hard receive or
/// send failure retires it — the task, not the process.
pub open spec fn spec_connection_step(ev: ConnEvent) -> TaskStep {
    match ev {
        ConnEvent::Received(send) => match send {
            IoEvent::Ready => TaskStep::Retry,
            IoEvent::WouldBlock => TaskStep::Retry,
            IoEvent::Failed => TaskStep::Done,
        },
        ConnEvent::RecvWouldBlock => TaskStep::Retry,
        ConnEvent::RecvFailed => TaskStep::Done,
    }
}

/// Decides the connection task's fate after one step, as
/// [`spec_connection_step`] says.
pub fn connection_step(ev: &ConnEvent) -> (s: TaskStep)
    ensures
        s == spec_connection_step(*ev),
{
    match ev {
        ConnEvent::Received(send) => match send {
            IoEvent::Ready => TaskStep::Retry,
            IoEvent::WouldBlock => TaskStep::Retry,
            IoEvent::Failed => TaskStep::Done,
        },
        ConnEvent::RecvWouldBlock => TaskStep::Retry,
        ConnEvent::RecvFailed => TaskStep::Done,
    }
}

/// The timer task re-arms itself every tick and never retires.
pub fn timer_step() -> (s: TaskStep)
    ensures
        s == TaskStep::Retry,
{
    TaskStep::Retry
}

} // verus!
