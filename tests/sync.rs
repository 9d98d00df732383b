use mirror::index::{Index, OperationKind};
use mirror::net::{Request, RequestParseError};
use mirror::server::{self, Connection, IpAddress};
use mirror::watcher::{self, Config, EventError};
use mirror::RunError;

fn config(peers: &[&str]) -> Config {
    Config {
        sync_path: "/home/u/sync".to_string(),
        device_addrs: peers.iter().map(|p| p.to_string()).collect(),
    }
}

fn ip(a: u8, b: u8, c: u8, d: u8) -> IpAddress {
    IpAddress::V4(u32::from_be_bytes([a, b, c, d]))
}

fn encode(request: Request) -> Vec<u8> {
    let mut out = Vec::new();
    request.write(&mut out);
    out
}

#[test]
fn relative_path_below_root() {
    let c = config(&[]);
    assert_eq!(
        watcher::relative_path(&c, &"/home/u/sync/notes/a.txt".to_string()),
        Some("notes/a.txt".to_string())
    );
}

#[test]
fn relative_path_of_a_relative_path_fails() {
    let c = config(&[]);
    assert_eq!(watcher::relative_path(&c, &"notes/a.txt".to_string()), None);
}

#[test]
fn event_outside_root_is_an_error() {
    let c = config(&["10.0.0.5:8999"]);
    let index = Index::new();
    let r = watcher::handle_create_or_write(&index, &c, &"notes/a.txt".to_string(), "x".to_string());
    assert_eq!(r, Err(EventError::OutsideRoot));
    assert_eq!(watcher::handle_remove(&index, &c, &"a".to_string()), Err(EventError::OutsideRoot));
}

#[test]
fn scenario_new_file_goes_to_every_peer() {
    let c = config(&["10.0.0.5:8999", "10.0.0.6:8999"]);
    let mut index = Index::new();
    let plan = watcher::handle_create_or_write(
        &index,
        &c,
        &"/home/u/sync/notes/a.txt".to_string(),
        "hello".to_string(),
    );
    let request = plan.unwrap().unwrap();
    assert_eq!(request, Request::put("notes/a.txt".to_string(), "hello".to_string()));
    let mut sent = Vec::new();
    for _peer in &c.device_addrs {
        sent.push(Request::parse(&encode(request.clone())).unwrap());
    }
    assert_eq!(sent.len(), 2);
    for r in &sent {
        assert_eq!(*r, Request::put("notes/a.txt".to_string(), "hello".to_string()));
    }
    watcher::record_sent(&mut index, request);
    assert_eq!(index.len(), 1);
    let op = index
        .find(OperationKind::Create { path: "notes/a.txt".to_string(), contents: "hello".to_string() })
        .unwrap();
    assert_eq!(op.device_addr(), "");
}

#[test]
fn scenario_applied_change_is_not_sent_back() {
    let c = config(&["10.0.0.1:8999"]);
    let mut index = Index::new();
    let received = Request::parse(&encode(Request::put("notes/a.txt".to_string(), "hello".to_string()))).unwrap();
    server::handle(&mut index, "10.0.0.1".to_string(), received);
    assert_eq!(index.len(), 1);
    let op = index
        .find(OperationKind::Create { path: "notes/a.txt".to_string(), contents: "hello".to_string() })
        .unwrap();
    assert_eq!(op.device_addr(), "10.0.0.1");
    let plan = watcher::handle_create_or_write(
        &index,
        &c,
        &"/home/u/sync/notes/a.txt".to_string(),
        "hello".to_string(),
    );
    assert_eq!(plan, Ok(None));
    let edited = watcher::handle_create_or_write(
        &index,
        &c,
        &"/home/u/sync/notes/a.txt".to_string(),
        "hello again".to_string(),
    );
    assert_eq!(edited, Ok(Some(Request::put("notes/a.txt".to_string(), "hello again".to_string()))));
}

#[test]
fn scenario_local_delete_sent_once() {
    let c = config(&["10.0.0.5:8999"]);
    let mut index = Index::new();
    let path = "/home/u/sync/notes/a.txt".to_string();
    let request = watcher::handle_remove(&index, &c, &path).unwrap().unwrap();
    assert_eq!(request, Request::del("notes/a.txt".to_string()));
    watcher::record_sent(&mut index, request);
    assert_eq!(index.len(), 1);
    assert!(index.find(OperationKind::Remove { path: "notes/a.txt".to_string() }).is_some());
    assert_eq!(watcher::handle_remove(&index, &c, &path), Ok(None));
}

#[test]
fn received_delete_suppresses_local_echo() {
    let c = config(&["10.0.0.5:8999"]);
    let mut index = Index::new();
    server::handle(&mut index, "10.0.0.5".to_string(), Request::del("old.txt".to_string()));
    assert_eq!(watcher::plan_remove(&index, "old.txt".to_string()), None);
    assert_eq!(
        watcher::handle_remove(&index, &c, &"/home/u/sync/new.txt".to_string()),
        Ok(Some(Request::del("new.txt".to_string())))
    );
}

#[test]
fn plan_create_or_write_on_empty_log() {
    let index = Index::new();
    assert_eq!(
        watcher::plan_create_or_write(&index, "a.txt".to_string(), "hi".to_string()),
        Some(Request::put("a.txt".to_string(), "hi".to_string()))
    );
}

#[test]
fn allow_list_membership() {
    let allowed = vec![ip(10, 0, 0, 5), IpAddress::V6(1)];
    assert!(server::is_device(&allowed, ip(10, 0, 0, 5)));
    assert!(server::is_device(&allowed, IpAddress::V6(1)));
    assert!(!server::is_device(&allowed, ip(10, 0, 0, 9)));
    assert!(!server::is_device(&allowed, IpAddress::V4(1)));
    assert!(!server::is_device(&Vec::new(), ip(10, 0, 0, 5)));
}

#[test]
fn unknown_peer_is_read_nothing() {
    let allowed = vec![ip(10, 0, 0, 5)];
    let conn = Connection::accept(&allowed, ip(10, 0, 0, 9));
    assert!(!conn.is_authorized());
    assert_eq!(conn.wanted(), 0);
}

#[test]
fn known_peer_reads_one_request() {
    let allowed = vec![ip(10, 0, 0, 5)];
    let mut conn = Connection::accept(&allowed, ip(10, 0, 0, 5));
    assert!(conn.is_authorized());
    let stream = encode(Request::del("a.txt".to_string()));
    let mut pos = 0usize;
    loop {
        let n = conn.wanted() as usize;
        if n == 0 {
            break;
        }
        conn.receive(&stream[pos..pos + n]);
        pos += n;
    }
    assert_eq!(pos, stream.len());
    assert_eq!(conn.request(), Ok(Request::del("a.txt".to_string())));
}

#[test]
fn connection_cut_short_is_truncated() {
    let allowed = vec![ip(10, 0, 0, 5)];
    let mut conn = Connection::accept(&allowed, ip(10, 0, 0, 5));
    conn.receive(&[1, 4, 0]);
    assert_eq!(conn.wanted(), 6);
    assert_eq!(conn.request(), Err(RequestParseError::Truncated));
}

#[test]
fn server_error_converts_to_run_error() {
    let e = server::Error::Io(std::io::Error::new(std::io::ErrorKind::AddrInUse, "taken"));
    let r: RunError = RunError::from(e);
    assert!(matches!(r, RunError::Server(server::Error::Io(_))));
}

#[test]
fn one_connection_carries_requests_in_turn() {
    let allowed = vec![ip(10, 0, 0, 5)];
    let mut conn = Connection::accept(&allowed, ip(10, 0, 0, 5));
    assert!(conn.is_idle());
    let mut stream = encode(Request::put("a".to_string(), "1".to_string()));
    stream.extend(encode(Request::del("b".to_string())));
    let mut pos = 0usize;
    let mut got = Vec::new();
    while pos < stream.len() {
        let n = conn.wanted() as usize;
        if n == 0 {
            got.push(conn.take_request());
            assert!(conn.is_idle());
            continue;
        }
        conn.receive(&stream[pos..pos + n]);
        pos += n;
    }
    got.push(conn.take_request());
    assert_eq!(
        got,
        vec![Ok(Request::put("a".to_string(), "1".to_string())), Ok(Request::del("b".to_string()))]
    );
}
