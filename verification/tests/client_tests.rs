use routing_core::client::{AskEvent, Client, ClientError, Reply};
use routing_core::envelope::{ReplyEnvelope, RequestEnvelope};
use routing_core::route::Route;
use routing_core::address::Address;

fn request(id: u64) -> RequestEnvelope {
    RequestEnvelope { id, path: b"v0/noop".to_vec(), body: vec![] }
}

fn reply(id: u64, success: bool, status: u32, body: &[u8]) -> AskEvent {
    AskEvent::ReplyArrived(ReplyEnvelope { id, success, status, body: body.to_vec() })
}

fn client() -> Client {
    Client::new(&Route::single(Address::from_string("api")), Some(1000))
}

#[test]
fn late_reply_yields_timeout_and_does_not_leak() {
    let c = client();
    // the first call's timer fires before its reply arrives
    let first = c.ask(&request(1), &vec![AskEvent::TimerElapsed]);
    assert!(matches!(first, Reply::Timeout));
    // the late reply to call 1 is discarded by call 2, whose own reply wins
    let events = vec![
        reply(1, true, 0, b"stale"),
        reply(2, true, 0, b"fresh"),
    ];
    let second = c.ask(&request(2), &events);
    match second {
        Reply::Successful(body) => assert_eq!(body, b"fresh".to_vec()),
        _ => panic!("the second call must see its own reply"),
    }
}

#[test]
fn correlated_failure_is_a_remote_failure() {
    let c = client();
    let events = vec![reply(5, false, 500, b"boom")];
    let outcome = c.ask(&request(5), &events).success();
    match outcome {
        Err(ClientError::RemoteFailure(f)) => {
            assert_eq!(f.status, 500);
            assert_eq!(f.message, b"boom".to_vec());
        }
        _ => panic!("an explicit remote failure must stay a remote failure"),
    }
}

#[test]
fn timeout_is_distinct_from_remote_failure() {
    let c = client();
    let outcome = c.ask(&request(5), &vec![AskEvent::TimerElapsed]).success();
    assert!(matches!(outcome, Err(ClientError::Timeout)));
}

#[test]
fn tell_waits_for_the_acknowledgement_only() {
    let c = client();
    assert!(c.tell(&request(3), &vec![reply(3, true, 0, b"ignored")]).is_ok());
    assert!(matches!(
        c.tell(&request(3), &vec![AskEvent::TimerElapsed]),
        Err(ClientError::Timeout)
    ));
    assert!(matches!(
        c.tell(&request(3), &vec![reply(3, false, 409, b"denied")]),
        Err(ClientError::RemoteFailure(_))
    ));
}

#[test]
fn mismatched_replies_keep_the_wait_pending() {
    let c = client();
    // only mismatched replies, then the timer: a timeout
    let events = vec![
        reply(9, true, 0, b"a"),
        reply(10, false, 1, b"b"),
        AskEvent::TimerElapsed,
    ];
    assert!(matches!(c.ask(&request(11), &events), Reply::Timeout));
}
