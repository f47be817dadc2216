//! The send and receive queues: unbounded FIFO queues from std's mpsc
//! channels, shared between the caller's threads and the I/O threads that
//! the unverified shell runs. vstd gives these types no specification, so
//! the declarations and the one-call wrappers here are trusted; everything
//! that decides on their outcomes is verified code that takes the outcome as
//! a plain value.
//!
//! What a fetch returns depends on what other threads have queued, so no
//! wrapper here promises which value comes back; each promises only the
//! shape of the outcome.

use vstd::prelude::*;
use std::sync::mpsc::{channel, Receiver, Sender, TryRecvError};

verus! {

#[verifier::external_type_specification]
#[verifier::external_body]
#[verifier::reject_recursive_types(T)]
pub struct ExSender<T>(Sender<T>);

#[verifier::external_type_specification]
#[verifier::external_body]
#[verifier::reject_recursive_types(T)]
pub struct ExReceiver<T>(Receiver<T>);

/// One non-blocking fetch from a receive queue: a queued message, nothing
/// queued while the feeding end still lives, or the queue permanently closed.
pub enum QueueEvent {
    Message(Vec<u8>),
    Empty,
    Disconnected,
}

/// Relies on std::sync::mpsc::channel: the sending and receiving halves of a
/// fresh unbounded FIFO queue.
#[verifier::external_body]
pub fn new_queue() -> (Sender<Vec<u8>>, Receiver<Vec<u8>>) {
    channel()
}

/// Relies on std::sync::mpsc::Sender::send: queues the message and returns
/// whether the receiving half still existed to take it.
#[verifier::external_body]
pub fn queue_send(s: &Sender<Vec<u8>>, m: Vec<u8>) -> bool {
    s.send(m).is_ok()
}

/// Relies on std::sync::mpsc::Receiver::recv: blocks for the next queued
/// message, or returns `None` once the queue is closed and drained.
#[verifier::external_body]
pub fn queue_recv(r: &Receiver<Vec<u8>>) -> Option<Vec<u8>> {
    match r.recv() {
        Ok(m) => Some(m),
        Err(_) => None,
    }
}

/// Relies on std::sync::mpsc::Receiver::try_recv: reports, without blocking,
/// a queued message, an empty but live queue, or a closed queue.
#[verifier::external_body]
pub fn queue_try_recv(r: &Receiver<Vec<u8>>) -> QueueEvent {
    match r.try_recv() {
        Ok(m) => QueueEvent::Message(m),
        Err(TryRecvError::Empty) => QueueEvent::Empty,
        Err(TryRecvError::Disconnected) => QueueEvent::Disconnected,
    }
}

} // verus!
