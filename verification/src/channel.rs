//! The channel facade: one `IpcClient` per process end, owning the sending
//! half of the outbound queue and the receiving half of the inbound queue.
//! The unverified shell constructs it with `from_parts` after wiring the
//! other two halves to the writer and reader threads; callers then exchange
//! messages through `send`, `recv` and `try_recv` alone.
//!
//! Dropping the client closes it: the writer thread finds the send queue
//! closed and exits, and the shell's teardown of the transport ends the
//! reader.

use vstd::prelude::*;
use std::sync::mpsc::{Receiver, Sender};

use crate::queue::{new_queue, queue_recv, queue_send, queue_try_recv, QueueEvent};

verus! {

/// Maps one receive-queue event to the non-blocking receive's three
/// distinguishable outcomes: a message, nothing queued yet while the peer is
/// still connected, or the channel permanently disconnected.
pub fn try_recv_result(e: QueueEvent) -> (r: Option<Option<Vec<u8>>>)
    ensures
        e matches QueueEvent::Message(m) ==> r == Some(Some(m)),
        e is Empty ==> r == Some(None::<Vec<u8>>),
        e is Disconnected ==> r is None,
{
    match e {
        QueueEvent::Message(m) => Some(Some(m)),
        QueueEvent::Empty => Some(None),
        QueueEvent::Disconnected => None,
    }
}

/// One end of an established channel: the caller's handles on the send queue
/// and the receive queue. The I/O threads hold the opposite halves.
pub struct IpcClient {
    send: Sender<Vec<u8>>,
    recv: Receiver<Vec<u8>>,
}

impl IpcClient {
    /// Assembles a channel end from the caller-side halves of its two
    /// queues. The matching halves belong to the writer thread (which drains
    /// what is sent here) and the reader thread (which feeds what is
    /// received here).
    pub fn from_parts(send: Sender<Vec<u8>>, recv: Receiver<Vec<u8>>) -> IpcClient {
        IpcClient { send, recv }
    }

    /// Queues one message for the writer thread. Returns `false` exactly
    /// when the send queue is already closed because the writer has exited;
    /// it never blocks. Which of the two happens depends on the peer and is
    /// visible only in the result.
    pub fn send(&self, message: Vec<u8>) -> bool {
        queue_send(&self.send, message)
    }

    /// Blocks until the reader thread queues the next message, and returns
    /// `None` once the channel is disconnected and the queue drained. Which
    /// message arrives depends on the peer and is visible only in the
    /// result.
    pub fn recv(&self) -> Option<Vec<u8>> {
        queue_recv(&self.recv)
    }

    /// The non-blocking receive: `Some(Some(m))` for a queued message,
    /// `Some(None)` when nothing is queued but the channel lives,
    /// `None` once it is disconnected, as `try_recv_result` lays the three
    /// outcomes out.
    pub fn try_recv(&self) -> Option<Option<Vec<u8>>> {
        try_recv_result(queue_try_recv(&self.recv))
    }
}

/// The caller-side halves of a fresh pair of queues for one channel end,
/// together with the thread-side halves: `(client, writer feed, reader
/// feed)` where the writer thread drains the second and the reader thread
/// fills through the third.
pub fn channel_parts() -> (IpcClient, Receiver<Vec<u8>>, Sender<Vec<u8>>) {
    let (send_tx, send_rx) = new_queue();
    let (recv_tx, recv_rx) = new_queue();
    (IpcClient::from_parts(send_tx, recv_rx), send_rx, recv_tx)
}

} // verus!
