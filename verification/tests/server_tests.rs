use server_client::{CallError, ExampleServer, Reply, Request};

#[test]
fn increment_adds_and_replies_with_counter() {
    let mut s = ExampleServer::new(10);
    match s.handle(Request::Increment(5)) {
        (Some(Reply::Increment(x)), false) => assert_eq!(x, 15),
        _ => panic!("unexpected answer"),
    }
    match s.handle(Request::Increment(1)) {
        (Some(Reply::Increment(x)), false) => assert_eq!(x, 16),
        _ => panic!("unexpected answer"),
    }
}

#[test]
fn increment_wraps() {
    let mut s = ExampleServer::new(usize::MAX);
    match s.handle(Request::Increment(2)) {
        (Some(Reply::Increment(x)), false) => assert_eq!(x, 1),
        _ => panic!("unexpected answer"),
    }
}

#[test]
fn drop_connection_asks_to_close() {
    let mut s = ExampleServer::new(0);
    match s.handle(Request::DropConnection) {
        (None, true) => {}
        _ => panic!("unexpected answer"),
    }
}

#[test]
fn new_connection_replies_with_client() {
    let mut s = ExampleServer::new(0);
    match s.handle(Request::NewConnection) {
        (Some(Reply::NewConnection(_)), false) => {}
        _ => panic!("unexpected answer"),
    }
}

#[test]
fn reply_conversions() {
    assert_eq!(Reply::Increment(4).into_increment(), Ok(4));
    assert!(matches!(Reply::Increment(4).into_connection(), Err(CallError::UnexpectedReply)));
}

#[test]
fn tick_with_nothing_waiting() {
    let mut s = ExampleServer::new(0);
    let _c = s.connection();
    assert_eq!(s.tick(), Ok(()));
}

#[test]
fn tick_closes_connection_on_request() {
    let mut s = ExampleServer::new(0);
    let mut c = s.connection();
    let mut c2 = s.connection();
    assert_eq!(c.close(), Ok(()));
    assert_eq!(s.tick(), Ok(()));
    // the remaining connection still works: its close is served too
    assert_eq!(c2.close(), Ok(()));
    assert_eq!(s.tick(), Ok(()));
}

#[test]
fn client_of_gone_server_is_disconnected() {
    let mut s = ExampleServer::new(0);
    let mut c = s.connection();
    drop(s);
    assert_eq!(c.increment(1), Err(CallError::Disconnected));
    assert!(matches!(c.clone(), Err(CallError::Disconnected)));
    assert_eq!(c.close(), Err(CallError::Disconnected));
}

#[test]
fn serve_replies_on_the_connection() {
    let mut s = ExampleServer::new(3);
    let c = s.connection();
    // reply goes to c's end; then c closes and that is served as well
    assert_eq!(s.serve(0, Request::Increment(4)), Ok(false));
    assert_eq!(s.serve(0, Request::DropConnection), Ok(true));
    drop(c);
}


#[test]
fn counter_is_start_plus_everything_added() {
    let mut s = ExampleServer::new(7);
    let reqs = vec![
        Request::Increment(3),
        Request::NewConnection,
        Request::Increment(10),
        Request::DropConnection,
        Request::Increment(0),
        Request::Increment(20),
    ];
    let mut last = 7;
    for r in reqs {
        if let (Some(Reply::Increment(x)), _) = s.handle(r) {
            last = x;
        }
    }
    assert_eq!(last, 7 + 3 + 10 + 0 + 20);
}

#[test]
fn counter_total_wraps_modulo() {
    let mut s = ExampleServer::new(usize::MAX - 1);
    let mut last = 0;
    for b in [1usize, 1, 5] {
        if let (Some(Reply::Increment(x)), _) = s.handle(Request::Increment(b)) {
            last = x;
        }
    }
    // (MAX - 1 + 7) mod (MAX + 1) == 5
    assert_eq!(last, 5);
}

#[test]
fn renderings() {
    assert_eq!(Reply::Increment(42).describe(), "Increment(42)");
    let mut s = ExampleServer::new(0);
    let c = s.connection();
    assert_eq!(c.describe(), "#client_name");
    assert_eq!(Reply::NewConnection(c).describe(), "NewConnection(#client_name)");
}
