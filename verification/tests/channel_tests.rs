use crossbeam_channel::RecvError;
use server_client::{duplex, try_recv_outcome, TryRecvError};

#[test]
fn duplex_carries_both_ways() {
    let (mut a, mut b) = duplex::<u32, String>();
    assert!(a.send(7).is_ok());
    assert_eq!(b.recv(), Ok(7));
    assert!(b.send("hi".to_string()).is_ok());
    assert_eq!(a.try_recv(), Ok("hi".to_string()));
}

#[test]
fn duplex_keeps_order() {
    let (mut a, mut b) = duplex::<u32, u32>();
    for i in 0..5 {
        assert!(a.send(i).is_ok());
    }
    for i in 0..5 {
        assert_eq!(b.try_recv(), Ok(i));
    }
}

#[test]
fn try_recv_on_empty_is_empty() {
    let (mut a, _b) = duplex::<u32, u32>();
    assert_eq!(a.try_recv(), Err(TryRecvError::Empty));
}

#[test]
fn other_end_gone_closes() {
    let (mut a, b) = duplex::<u32, u32>();
    drop(b);
    assert_eq!(a.try_recv(), Err(TryRecvError::Closed));
    assert_eq!(a.recv(), Err(RecvError));
}

#[test]
fn send_to_gone_end_gives_message_back() {
    let (mut a, b) = duplex::<u32, u32>();
    drop(b);
    match a.send(42) {
        Ok(()) => panic!("the other end is gone"),
        Err(e) => assert_eq!(e.0, 42),
    }
}

#[test]
fn try_recv_outcome_cases() {
    assert_eq!(try_recv_outcome::<u8>(None), Err(TryRecvError::Empty));
    assert_eq!(try_recv_outcome::<u8>(Some(None)), Err(TryRecvError::Closed));
    assert_eq!(try_recv_outcome(Some(Some(3u8))), Ok(3));
}
