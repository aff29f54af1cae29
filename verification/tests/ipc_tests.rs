use electrico::ipcchannel::{timed_out, IPCChannel, IPCMsg, IPC_TIMEOUT_SECS};
use std::sync::mpsc::channel;

#[test]
fn new_channel_has_no_requests() {
    let mut c = IPCChannel::new();
    assert!(c.get(&"r1".to_string()).is_none());
}

#[test]
fn started_request_is_found_and_answers_reach_it() {
    let mut c = IPCChannel::new();
    let (tx, rx) = channel::<IPCMsg>();
    c.start("r1".to_string(), tx);
    let s = c.get(&"r1".to_string()).expect("pending request");
    s.send(IPCMsg::Response { params: "ok".to_string() }).unwrap();
    match rx.recv().unwrap() {
        IPCMsg::Response { params } => assert_eq!(params, "ok"),
        _ => panic!("wrong message"),
    }
    assert!(c.get(&"r2".to_string()).is_none());
}

#[test]
fn restarting_a_key_replaces_its_sender() {
    let mut c = IPCChannel::new();
    let (tx1, rx1) = channel::<IPCMsg>();
    let (tx2, rx2) = channel::<IPCMsg>();
    c.start("r1".to_string(), tx1);
    c.start("r1".to_string(), tx2);
    c.get(&"r1".to_string()).unwrap().send(IPCMsg::Called).unwrap();
    assert!(matches!(rx2.recv().unwrap(), IPCMsg::Called));
    assert!(rx1.try_recv().is_err());
}

#[test]
fn ended_request_is_gone_others_stay() {
    let mut c = IPCChannel::new();
    let (tx1, _rx1) = channel::<IPCMsg>();
    let (tx2, _rx2) = channel::<IPCMsg>();
    c.start("a".to_string(), tx1);
    c.start("b".to_string(), tx2);
    c.end(&"a".to_string());
    assert!(c.get(&"a".to_string()).is_none());
    assert!(c.get(&"b".to_string()).is_some());
    c.end(&"zzz".to_string());
    assert!(c.get(&"b".to_string()).is_some());
}

#[test]
fn fresh_requests_survive_cleaning() {
    let mut c = IPCChannel::new();
    let (tx, _rx) = channel::<IPCMsg>();
    c.start("a".to_string(), tx);
    c.clean_timeout();
    assert!(c.get(&"a".to_string()).is_some());
}

#[test]
fn timeout_is_strictly_over_ten_minutes() {
    assert_eq!(IPC_TIMEOUT_SECS, 600);
    assert!(!timed_out(Some(0)));
    assert!(!timed_out(Some(600)));
    assert!(timed_out(Some(601)));
    assert!(!timed_out(None));
}

#[test]
fn expired_readings_drop_their_requests() {
    let mut c = IPCChannel::new();
    let (ta, _ra) = channel::<IPCMsg>();
    let (tb, _rb) = channel::<IPCMsg>();
    let (tc, _rc) = channel::<IPCMsg>();
    let (td, _rd) = channel::<IPCMsg>();
    c.start("a".to_string(), ta);
    c.start("b".to_string(), tb);
    c.start("c".to_string(), tc);
    c.start("d".to_string(), td);
    c.drop_expired(&vec![Some(601), None, Some(600), Some(10_000)]);
    assert!(c.get(&"a".to_string()).is_none());
    assert!(c.get(&"b".to_string()).is_some());
    assert!(c.get(&"c".to_string()).is_some());
    assert!(c.get(&"d".to_string()).is_none());
    c.drop_expired(&vec![Some(0), Some(0)]);
    assert!(c.get(&"b".to_string()).is_some());
    assert!(c.get(&"c".to_string()).is_some());
}
