use messageipc::channel::{channel_parts, try_recv_result, IpcClient};
use messageipc::frame::{encode_frame, read_messages};
use messageipc::naming::{client_paths, server_paths};
use messageipc::queue::QueueEvent;
use std::sync::mpsc::{Receiver, Sender};

/// Plays both I/O threads of one direction in-process: drains everything the
/// sender queued, frames it, and hands the framed-out messages to the peer's
/// receive queue, exactly as the writer and reader threads would over a pipe.
fn pump(from_writer_feed: &Receiver<Vec<u8>>, to_reader_feed: &Sender<Vec<u8>>) {
    let mut wire: Vec<u8> = Vec::new();
    while let Ok(buffer) = from_writer_feed.try_recv() {
        wire.extend_from_slice(&encode_frame(&buffer).unwrap());
    }
    for msg in read_messages(&wire) {
        to_reader_feed.send(msg).unwrap();
    }
}

#[test]
fn try_recv_result_maps_the_three_outcomes() {
    assert_eq!(try_recv_result(QueueEvent::Message(vec![1, 2])), Some(Some(vec![1, 2])));
    assert_eq!(try_recv_result(QueueEvent::Empty), Some(None));
    assert_eq!(try_recv_result(QueueEvent::Disconnected), None);
}

#[test]
fn try_recv_tri_state() {
    let (client, _writer_feed, reader_feed) = channel_parts();
    // connected, nothing queued
    assert_eq!(client.try_recv(), Some(None));
    // a message arrives
    reader_feed.send(vec![1, 2, 3]).unwrap();
    assert_eq!(client.try_recv(), Some(Some(vec![1, 2, 3])));
    assert_eq!(client.try_recv(), Some(None));
    // the reader thread goes away: terminal, and stays terminal
    drop(reader_feed);
    assert_eq!(client.try_recv(), None);
    assert_eq!(client.try_recv(), None);
}

#[test]
fn send_after_writer_exit_returns_false() {
    let (client, writer_feed, _reader_feed) = channel_parts();
    assert!(client.send(vec![1]));
    drop(writer_feed);
    assert!(!client.send(vec![2]));
    assert!(!client.send(vec![])); // still false, still no panic
}

#[test]
fn recv_reports_disconnect() {
    let (client, _writer_feed, reader_feed) = channel_parts();
    drop(reader_feed);
    assert_eq!(client.recv(), None);
    assert_eq!(client.recv(), None);
}

#[test]
fn server_sends_client_receives() {
    // server opens "demo"; client opens with the server's pid; both compute
    // the same transport names crosswise
    let pid = 4242;
    let (server_read, server_write) = server_paths("demo", pid);
    let (client_read, client_write) = client_paths("demo", pid);
    assert_eq!(server_write, client_read);
    assert_eq!(server_read, client_write);

    let (server, server_writer_feed, _server_reader_feed) = channel_parts();
    let (client, _client_writer_feed, client_reader_feed) = channel_parts();

    assert!(server.send(vec![1, 2, 3]));
    pump(&server_writer_feed, &client_reader_feed);
    assert_eq!(client.recv(), Some(vec![1, 2, 3]));
}

#[test]
fn thousand_messages_in_order() {
    let (client, client_writer_feed, _client_reader_feed) = channel_parts();
    let (server, _server_writer_feed, server_reader_feed) = channel_parts();

    for i in 0..1000usize {
        assert!(client.send(vec![i as u8; i]));
    }
    pump(&client_writer_feed, &server_reader_feed);
    for i in 0..1000usize {
        let msg = server.recv().expect("still connected");
        assert_eq!(msg.len(), i);
        assert!(msg.iter().all(|&b| b == i as u8));
    }
}

#[test]
fn server_closes_before_client_sends() {
    let (client, client_writer_feed, client_reader_feed) = channel_parts();
    // the server end vanishes: its pipes close, so the client's reader
    // thread sees EOF and exits, and the writer thread's next write fails
    // and it exits too
    drop(client_reader_feed);
    drop(client_writer_feed);
    assert_eq!(client.recv(), None);
    assert!(!client.send(vec![5]));
}

#[test]
fn facade_moves_messages_unmodified() {
    let (client, writer_feed, reader_feed) = channel_parts();
    assert!(client.send(vec![255, 0, 128]));
    assert_eq!(writer_feed.recv().unwrap(), vec![255, 0, 128]);
    reader_feed.send(vec![9]).unwrap();
    assert_eq!(client.recv(), Some(vec![9]));
    let _named: &IpcClient = &client;
}
