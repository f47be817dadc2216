use messageipc::naming::{client_paths, decimal_string, fifo_path, server_paths};

#[test]
fn decimal_values() {
    assert_eq!(decimal_string(0), "0");
    assert_eq!(decimal_string(7), "7");
    assert_eq!(decimal_string(10), "10");
    assert_eq!(decimal_string(1000), "1000");
    assert_eq!(decimal_string(u32::MAX), "4294967295");
}

#[test]
fn path_layout() {
    assert_eq!(fifo_path("demo", 42, true), "/tmp/messageipc_demo_42_toserver");
    assert_eq!(fifo_path("demo", 42, false), "/tmp/messageipc_demo_42_toclient");
}

#[test]
fn path_empty_name() {
    assert_eq!(fifo_path("", 5, false), "/tmp/messageipc__5_toclient");
}

#[test]
fn peer_names_match_crosswise() {
    let (server_read, server_write) = server_paths("demo", 42);
    let (client_read, client_write) = client_paths("demo", 42);
    assert_eq!(server_read, client_write);
    assert_eq!(server_write, client_read);
}

#[test]
fn distinct_pids_distinct_paths() {
    assert_ne!(fifo_path("demo", 1, true), fifo_path("demo", 2, true));
    assert_ne!(fifo_path("demo", 12, true), fifo_path("demo", 21, true));
}
