use server_client::ordered::{Reply, TickStep};
use server_client::{CallError, OrderedExampleServer, Request, ServeError};

#[test]
fn ordered_increment_adds() {
    let mut s = OrderedExampleServer::new(1);
    match s.handle(Request::Increment(41)) {
        (Some(Reply::Increment(x)), false) => assert_eq!(x, 42),
        _ => panic!("unexpected answer"),
    }
}

#[test]
fn ordered_idle_tick() {
    let mut s = OrderedExampleServer::new(0);
    assert_eq!(s.tick_step(), TickStep::Idle);
}

#[test]
fn ordered_close_is_served() {
    let mut s = OrderedExampleServer::new(0);
    let mut c = s.connection();
    assert_eq!(c.close(), Ok(()));
    assert_eq!(s.tick_step(), TickStep::Closed);
    assert_eq!(s.tick_step(), TickStep::Idle);
}

#[test]
fn ordered_reply_to_unknown_id() {
    let mut s = OrderedExampleServer::new(0);
    assert_eq!(s.serve(Request::Increment(1), 5), Err(ServeError::UnknownConnection(5)));
}

#[test]
fn ordered_serve_known_id() {
    let mut s = OrderedExampleServer::new(0);
    let _c = s.connection();
    assert_eq!(s.serve(Request::Increment(2), 0), Ok(false));
    assert_eq!(s.serve(Request::DropConnection, 0), Ok(true));
    assert_eq!(s.serve(Request::Increment(2), 0), Err(ServeError::UnknownConnection(0)));
}

#[test]
fn ordered_new_connection_gets_next_id() {
    let mut s = OrderedExampleServer::new(0);
    let _c0 = s.connection();
    let c1 = match s.handle(Request::NewConnection) {
        (Some(Reply::NewConnection(c)), false) => c,
        _ => panic!("unexpected answer"),
    };
    // ids 0 and 1 are in use now; a reply to id 1 goes through
    assert_eq!(s.serve(Request::Increment(1), 1), Ok(false));
    drop(c1);
    // with the client gone, its reply cannot be delivered
    assert_eq!(s.serve(Request::Increment(1), 1), Err(ServeError::ReplyUndelivered(1)));
}

#[test]
fn ordered_reply_conversions() {
    assert!(matches!(Reply::Refused.into_connection(), Err(CallError::Refused)));
    assert_eq!(Reply::Refused.into_increment(), Err(CallError::UnexpectedReply));
    assert_eq!(Reply::Increment(9).into_increment(), Ok(9));
}

#[test]
fn ordered_renderings() {
    let mut s = OrderedExampleServer::new(0);
    let _c0 = s.connection();
    let c1 = s.connection();
    assert_eq!(c1.describe(), "#client_name[1]");
    assert_eq!(Reply::NewConnection(c1).describe(), "NewConnection(#client_name[1])");
    assert_eq!(Reply::Refused.describe(), "Refused");
    assert_eq!(Reply::Increment(7).describe(), "Increment(7)");
}
