use spare::framed_io::{IoAction, IoEvent, Transfer};

#[test]
fn read_completes_in_pieces() {
    let mut t = Transfer::new(5, 500);
    assert_eq!(t.start(0), IoAction::WaitReady(500));
    assert_eq!(t.on_event(IoEvent::Transferred(2), 10), IoAction::WaitReady(490));
    assert_eq!(t.done(), 2);
    assert_eq!(t.on_event(IoEvent::Transferred(9), 20), IoAction::Done);
    assert_eq!(t.done(), 5);
}

#[test]
fn backoff_doubles_up_to_deadline() {
    let mut t = Transfer::new(5, 10);
    assert_eq!(t.on_event(IoEvent::WouldBlock, 0), IoAction::Sleep(2));
    assert_eq!(t.on_event(IoEvent::WouldBlock, 2), IoAction::Sleep(4));
    assert_eq!(t.on_event(IoEvent::WouldBlock, 6), IoAction::Sleep(4));
    assert_eq!(t.on_event(IoEvent::WouldBlock, 10), IoAction::Timeout);
}

#[test]
fn handshake_never_written_times_out() {
    let mut t = Transfer::new(5, 500);
    assert_eq!(t.start(0), IoAction::WaitReady(500));
    assert_eq!(t.on_event(IoEvent::NotReady, 500), IoAction::Timeout);
    assert_eq!(t.start(500), IoAction::Timeout);
}

#[test]
fn early_close_is_unexpected_eof() {
    let mut t = Transfer::new(8, 1000);
    assert_eq!(t.on_event(IoEvent::Transferred(3), 1), IoAction::WaitReady(999));
    assert_eq!(t.on_event(IoEvent::Closed, 2), IoAction::UnexpectedEof);
    let mut empty = Transfer::new(0, 1000);
    assert_eq!(empty.start(0), IoAction::Done);
    assert_eq!(empty.on_event(IoEvent::Closed, 0), IoAction::Done);
}
