use socks_hub::codec::{IpAddress, SocketAddress};
use socks_hub::listener::Socks5Proxy;
use socks_hub::session::{DialError, Phase, Session, SessionAction, SessionEvent};
use socks_hub::users::User;

fn listener(methods: Vec<u8>, max: u64) -> Socks5Proxy {
    let mut p = Socks5Proxy::new(1080);
    p.set_avaliable_auth_method(methods);
    p.set_max_bandwith(max);
    p
}

fn reply_bytes(a: SessionAction) -> Vec<u8> {
    match a {
        SessionAction::Reply(b) => b,
        other => panic!("expected Reply, got {:?}", other),
    }
}

fn closing_bytes(a: SessionAction) -> Vec<u8> {
    match a {
        SessionAction::ReplyAndClose(b) => b,
        other => panic!("expected ReplyAndClose, got {:?}", other),
    }
}

#[test]
fn no_auth_connect_to_ipv4() {
    let p = listener(vec![0x00], 1_000_000_000);
    let mut s = Session::new();
    let a = s.step(&p, SessionEvent::Received(vec![0x05, 0x01, 0x00]));
    assert_eq!(reply_bytes(a), vec![0x05, 0x00]);
    let req = vec![0x05, 0x01, 0x00, 0x01, 0xC0, 0xA8, 0x00, 0x01, 0x1F, 0x90];
    match s.step(&p, SessionEvent::Received(req)) {
        SessionAction::Dial(t) => {
            assert_eq!(t.ip.octets, vec![192, 168, 0, 1]);
            assert_eq!(t.port, 8080);
        },
        other => panic!("expected Dial, got {:?}", other),
    }
    assert_eq!(s.phase(), Phase::Dialing);
    match s.step(&p, SessionEvent::Dialed(Ok(()))) {
        SessionAction::ReplyAndRelay(b) => {
            assert_eq!(b, vec![0x05, 0x00, 0x00, 0x01, 0xC0, 0xA8, 0x00, 0x01, 0x1F, 0x90]);
        },
        other => panic!("expected ReplyAndRelay, got {:?}", other),
    }
    assert_eq!(s.phase(), Phase::Relaying);
}

#[test]
fn username_password_happy_path() {
    let mut p = listener(vec![0x02], 1_000_000_000);
    p.set_user(User::new("alice", "s3cret"));
    let mut s = Session::new();
    let a = s.step(&p, SessionEvent::Received(vec![0x05, 0x01, 0x02]));
    assert_eq!(reply_bytes(a), vec![0x05, 0x02]);
    let creds = vec![0x01, 0x05, 0x61, 0x6C, 0x69, 0x63, 0x65, 0x06, 0x73, 0x33, 0x63, 0x72, 0x65, 0x74];
    let a = s.step(&p, SessionEvent::Received(creds));
    assert_eq!(reply_bytes(a), vec![0x01, 0x00]);
    assert_eq!(s.phase(), Phase::RequestWait);
}

#[test]
fn wrong_password_is_refused() {
    let mut p = listener(vec![0x02], 1_000_000_000);
    p.set_user(User::new("alice", "s3cret"));
    let mut s = Session::new();
    s.step(&p, SessionEvent::Received(vec![0x05, 0x01, 0x02]));
    let creds = vec![0x01, 0x05, 0x61, 0x6C, 0x69, 0x63, 0x65, 0x06, 0x73, 0x33, 0x63, 0x72, 0x65, 0x75];
    let a = s.step(&p, SessionEvent::Received(creds));
    assert_eq!(closing_bytes(a), vec![0x01, 0x01]);
    assert_eq!(s.phase(), Phase::Closed);
}

#[test]
fn unknown_user_is_refused() {
    let mut p = listener(vec![0x02], 1_000_000_000);
    p.set_user(User::new("alice", "s3cret"));
    let mut s = Session::new();
    s.step(&p, SessionEvent::Received(vec![0x05, 0x01, 0x02]));
    let creds = vec![0x01, 0x03, b'b', b'o', b'b', 0x06, 0x73, 0x33, 0x63, 0x72, 0x65, 0x74];
    assert_eq!(closing_bytes(s.step(&p, SessionEvent::Received(creds))), vec![0x01, 0x01]);
}

#[test]
fn no_common_auth_method() {
    let p = listener(vec![0x02], 1_000_000_000);
    let mut s = Session::new();
    let a = s.step(&p, SessionEvent::Received(vec![0x05, 0x01, 0x00]));
    assert_eq!(closing_bytes(a), vec![0x05, 0xFF]);
    assert_eq!(s.phase(), Phase::Closed);
}

#[test]
fn both_methods_removed_refuses_greeting() {
    let mut p = listener(vec![0x00, 0x02], 1_000_000_000);
    p.remove_avaliable_auth_method(vec![0x00]);
    p.remove_avaliable_auth_method(vec![0x02]);
    let mut s = Session::new();
    let a = s.step(&p, SessionEvent::Received(vec![0x05, 0x02, 0x00, 0x02]));
    assert_eq!(closing_bytes(a), vec![0x05, 0xFF]);
}

#[test]
fn username_password_preferred_over_no_auth() {
    let p = listener(vec![0x00, 0x02], 1_000_000_000);
    let mut s = Session::new();
    let a = s.step(&p, SessionEvent::Received(vec![0x05, 0x02, 0x00, 0x02]));
    assert_eq!(reply_bytes(a), vec![0x05, 0x02]);
    assert_eq!(s.phase(), Phase::SubNegotiation);
}

#[test]
fn malformed_greeting_closes_silently() {
    let p = listener(vec![0x00], 1_000_000_000);
    let mut s = Session::new();
    assert!(matches!(s.step(&p, SessionEvent::Received(vec![0x04, 0x01, 0x00])), SessionAction::Close));
    let mut s = Session::new();
    assert!(matches!(s.step(&p, SessionEvent::Received(vec![0x05, 0x00])), SessionAction::Close));
}

#[test]
fn blocked_address() {
    let mut p = listener(vec![0x00], 1_000_000_000);
    p.block_ip_address(&IpAddress::v4(192, 168, 0, 1));
    let mut s = Session::new();
    s.step(&p, SessionEvent::Received(vec![0x05, 0x01, 0x00]));
    let req = vec![0x05, 0x01, 0x00, 0x01, 0xC0, 0xA8, 0x00, 0x01, 0x00, 0x50];
    let b = closing_bytes(s.step(&p, SessionEvent::Received(req)));
    assert_eq!(&b[..4], &[0x05, 0x02, 0x00, 0x01]);
    assert_eq!(s.phase(), Phase::Closed);
}

#[test]
fn udp_associate_refused() {
    let p = listener(vec![0x00], 1_000_000_000);
    let mut s = Session::new();
    s.step(&p, SessionEvent::Received(vec![0x05, 0x01, 0x00]));
    let req = vec![0x05, 0x03, 0x00, 0x01, 0x00, 0x00, 0x00, 0x00, 0x00, 0x00];
    let b = closing_bytes(s.step(&p, SessionEvent::Received(req)));
    assert_eq!(&b[..3], &[0x05, 0x07, 0x00]);
}

#[test]
fn over_bandwidth_gate() {
    let p = listener(vec![0x00], 0);
    let mut s = Session::new();
    s.step(&p, SessionEvent::Received(vec![0x05, 0x01, 0x00]));
    let req = vec![0x05, 0x01, 0x00, 0x01, 0xC0, 0xA8, 0x00, 0x01, 0x1F, 0x90];
    assert!(matches!(s.step(&p, SessionEvent::Received(req)), SessionAction::Dial(_)));
    let b = closing_bytes(s.step(&p, SessionEvent::Dialed(Ok(()))));
    assert_eq!(b[1], 0x01);
    assert_ne!(s.phase(), Phase::Relaying);
}

#[test]
fn bind_with_zero_budget_never_relays() {
    let p = listener(vec![0x00], 0);
    let mut s = Session::new();
    s.step(&p, SessionEvent::Received(vec![0x05, 0x01, 0x00]));
    let req = vec![0x05, 0x02, 0x00, 0x01, 0x00, 0x00, 0x00, 0x00, 0x00, 0x00];
    assert!(matches!(s.step(&p, SessionEvent::Received(req)), SessionAction::Bind(_)));
    let local = SocketAddress { ip: IpAddress::v4(10, 0, 0, 1), port: 4000 };
    let b = match s.step(&p, SessionEvent::Bound(Some(local))) {
        SessionAction::ReplyAndAccept(b) => b,
        other => panic!("expected ReplyAndAccept, got {:?}", other),
    };
    assert_eq!(b, vec![0x05, 0x00, 0x00, 0x01, 10, 0, 0, 1, 0x0F, 0xA0]);
    let peer = SocketAddress { ip: IpAddress::v4(10, 0, 0, 2), port: 5000 };
    let b = closing_bytes(s.step(&p, SessionEvent::Accepted(Some(peer))));
    assert_eq!(b[1], 0x01);
}

#[test]
fn bind_replies_local_then_peer() {
    let p = listener(vec![0x00], 100);
    let mut s = Session::new();
    s.step(&p, SessionEvent::Received(vec![0x05, 0x01, 0x00]));
    let req = vec![0x05, 0x02, 0x00, 0x01, 0x00, 0x00, 0x00, 0x00, 0x00, 0x00];
    s.step(&p, SessionEvent::Received(req));
    let local = SocketAddress { ip: IpAddress::v4(0, 0, 0, 0), port: 4000 };
    s.step(&p, SessionEvent::Bound(Some(local)));
    assert_eq!(s.phase(), Phase::BoundWaiting);
    let peer = SocketAddress { ip: IpAddress::v4(10, 0, 0, 2), port: 5000 };
    match s.step(&p, SessionEvent::Accepted(Some(peer))) {
        SessionAction::ReplyAndRelay(b) => assert_eq!(b, vec![0x05, 0x00, 0x00, 0x01, 10, 0, 0, 2, 0x13, 0x88]),
        other => panic!("expected ReplyAndRelay, got {:?}", other),
    }
}

#[test]
fn domain_name_is_resolved_first() {
    let p = listener(vec![0x00], 100);
    let mut s = Session::new();
    s.step(&p, SessionEvent::Received(vec![0x05, 0x01, 0x00]));
    let req = vec![0x05, 0x01, 0x00, 0x03, 0x03, b'a', b'b', b'c', 0x00, 0x50];
    match s.step(&p, SessionEvent::Received(req)) {
        SessionAction::Resolve(name, port) => {
            assert_eq!(name, b"abc".to_vec());
            assert_eq!(port, 80);
        },
        other => panic!("expected Resolve, got {:?}", other),
    }
    let t = SocketAddress { ip: IpAddress::v4(1, 2, 3, 4), port: 80 };
    assert!(matches!(s.step(&p, SessionEvent::Resolved(Some(t))), SessionAction::Dial(_)));
    match s.step(&p, SessionEvent::Dialed(Ok(()))) {
        SessionAction::ReplyAndRelay(b) => {
            assert_eq!(b, vec![0x05, 0x00, 0x00, 0x03, 0x03, b'a', b'b', b'c', 0x00, 0x50])
        },
        other => panic!("expected ReplyAndRelay, got {:?}", other),
    }
}

#[test]
fn failed_lookup_and_dial_errors() {
    let p = listener(vec![0x00], 100);
    let mut s = Session::new();
    s.step(&p, SessionEvent::Received(vec![0x05, 0x01, 0x00]));
    let req = vec![0x05, 0x01, 0x00, 0x03, 0x01, b'x', 0x00, 0x50];
    s.step(&p, SessionEvent::Received(req));
    assert_eq!(closing_bytes(s.step(&p, SessionEvent::Resolved(None)))[1], 0x01);

    let codes = [
        (DialError::ConnectionRefused, 0x05),
        (DialError::HostUnreachable, 0x04),
        (DialError::NetworkUnreachable, 0x03),
        (DialError::Other, 0x01),
    ];
    for (e, code) in codes {
        let mut s = Session::new();
        s.step(&p, SessionEvent::Received(vec![0x05, 0x01, 0x00]));
        s.step(&p, SessionEvent::Received(vec![0x05, 0x01, 0x00, 0x01, 1, 2, 3, 4, 0x00, 0x50]));
        let b = closing_bytes(s.step(&p, SessionEvent::Dialed(Err(e))));
        assert_eq!(b, vec![0x05, code, 0x00, 0x01, 0, 0, 0, 0, 0, 0]);
    }
}

#[test]
fn malformed_request_gets_general_failure() {
    let p = listener(vec![0x00], 100);
    let mut s = Session::new();
    s.step(&p, SessionEvent::Received(vec![0x05, 0x01, 0x00]));
    let b = closing_bytes(s.step(&p, SessionEvent::Received(vec![0x05, 0x01, 0x01, 0x01, 1, 2, 3, 4, 0, 80])));
    assert_eq!(b, vec![0x05, 0x01, 0x00, 0x01, 0, 0, 0, 0, 0, 0]);
}

#[test]
fn unexpected_event_closes() {
    let p = listener(vec![0x00], 100);
    let mut s = Session::new();
    assert!(matches!(s.step(&p, SessionEvent::Dialed(Ok(()))), SessionAction::Close));
    assert_eq!(s.phase(), Phase::Closed);
    assert!(matches!(s.step(&p, SessionEvent::Received(vec![0x05, 0x01, 0x00])), SessionAction::Close));
}
