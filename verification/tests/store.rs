use kv_mux::command::{Command, Response};
use kv_mux::server::apply_command;
use kv_mux::table::Table;

fn key(s: &str) -> String {
    s.to_string()
}

fn bytes_of(s: &str) -> Vec<u8> {
    s.as_bytes().to_vec()
}

#[test]
fn set_then_get_returns_the_value() {
    let mut table = Table::new();
    table.set(key("hello"), bytes_of("world"));
    let got = table.get(&key("hello"));
    assert_eq!(got, Some(&bytes_of("world")));
}

#[test]
fn set_replaces_wholesale() {
    let mut table = Table::new();
    table.set(key("k"), bytes_of("first"));
    table.set(key("k"), bytes_of("second"));
    assert_eq!(table.get(&key("k")), Some(&bytes_of("second")));
}

#[test]
fn unset_key_is_absent_never_an_error() {
    let mut table = Table::new();
    assert_eq!(table.get(&key("missing")), None);
    table.set(key("present"), bytes_of("x"));
    table.set(key("also-present"), bytes_of("y"));
    assert_eq!(table.get(&key("missing")), None);
}

#[test]
fn racing_writes_end_in_exactly_one_value() {
    // The lock serializes the two handlers; both orders leave the key
    // holding one of the two written values, whole.
    let mut first_order = Table::new();
    apply_command(&mut first_order, Command::Put { key: key("k"), val: bytes_of("v1") });
    apply_command(&mut first_order, Command::Put { key: key("k"), val: bytes_of("v2") });
    assert_eq!(first_order.get(&key("k")), Some(&bytes_of("v2")));

    let mut second_order = Table::new();
    apply_command(&mut second_order, Command::Put { key: key("k"), val: bytes_of("v2") });
    apply_command(&mut second_order, Command::Put { key: key("k"), val: bytes_of("v1") });
    assert_eq!(second_order.get(&key("k")), Some(&bytes_of("v1")));
}

#[test]
fn disjoint_keys_lose_no_update() {
    let mut table = Table::new();
    apply_command(&mut table, Command::Put { key: key("a"), val: bytes_of("from-a") });
    apply_command(&mut table, Command::Put { key: key("b"), val: bytes_of("from-b") });
    assert_eq!(table.get(&key("a")), Some(&bytes_of("from-a")));
    assert_eq!(table.get(&key("b")), Some(&bytes_of("from-b")));

    let mut other_order = Table::new();
    apply_command(&mut other_order, Command::Put { key: key("b"), val: bytes_of("from-b") });
    apply_command(&mut other_order, Command::Put { key: key("a"), val: bytes_of("from-a") });
    assert_eq!(other_order.get(&key("a")), Some(&bytes_of("from-a")));
    assert_eq!(other_order.get(&key("b")), Some(&bytes_of("from-b")));
}

#[test]
fn handler_answers_each_command_kind() {
    // End-to-end over one connection: a write is acknowledged, a read of it
    // answers the written value, a read of an unknown key answers absent.
    let mut table = Table::new();

    let ack = apply_command(&mut table, Command::Put { key: key("hello"), val: bytes_of("world") });
    assert!(matches!(ack, Response::Done));

    let found = apply_command(&mut table, Command::Get { key: key("hello") });
    match found {
        Response::Found(v) => assert_eq!(v, bytes_of("world")),
        other => panic!("expected the written value, got {:?}", response_name(&other)),
    }

    let absent = apply_command(&mut table, Command::Get { key: key("missing") });
    assert!(matches!(absent, Response::Missing));
}

#[test]
fn unsupported_command_answers_without_tearing_down() {
    let mut table = Table::new();
    table.set(key("kept"), bytes_of("intact"));
    let resp = apply_command(&mut table, Command::Other { name: key("publish") });
    assert!(matches!(resp, Response::Unsupported));
    // The table is untouched and the handler can keep serving.
    assert_eq!(table.get(&key("kept")), Some(&bytes_of("intact")));
}

fn response_name(r: &Response) -> &'static str {
    match r {
        Response::Done => "done",
        Response::Found(_) => "found",
        Response::Missing => "missing",
        Response::Unsupported => "unsupported",
        Response::Failed(_) => "failed",
    }
}
