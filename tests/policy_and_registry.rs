use std::collections::HashSet;

use socks_hub::codec::IpAddress;
use socks_hub::listener::Socks5Proxy;
use socks_hub::manager::{HttpProxy, ProxyError, ProxyManager, ProxyType};
use socks_hub::session::{parse_user_pass, select_auth_method};
use socks_hub::users::{User, UserSet};

fn sorted(set: HashSet<u8>) -> Vec<u8> {
    let mut v: Vec<u8> = set.into_iter().collect();
    v.sort();
    v
}

#[test]
fn auth_methods_are_a_set() {
    let mut p = Socks5Proxy::new(9000);
    assert!(p.avaliable_auth_methods().is_empty());
    p.set_avaliable_auth_method(vec![0x02]);
    let once = sorted(p.avaliable_auth_methods());
    p.set_avaliable_auth_method(vec![0x02]);
    assert_eq!(sorted(p.avaliable_auth_methods()), once);
    p.set_avaliable_auth_method(vec![0x00, 0x00, 0xFF]);
    assert_eq!(sorted(p.avaliable_auth_methods()), vec![0x00, 0x02, 0xFF]);
    p.remove_avaliable_auth_method(vec![0xFF]);
    assert_eq!(sorted(p.avaliable_auth_methods()), vec![0x00, 0x02]);
    p.remove_avaliable_auth_method(vec![0x02, 0x07]);
    assert_eq!(sorted(p.avaliable_auth_methods()), vec![0x00]);
    assert!(p.accepts_method(0x00));
    assert!(!p.accepts_method(0x02));
}

#[test]
fn users_are_a_set_by_id() {
    let mut p = Socks5Proxy::new(9000);
    let u = User::with_id(7, "alice", "pw");
    p.set_user(u.duplicate());
    p.set_user(u.duplicate());
    assert_eq!(p.avaliable_users().len(), 1);
    p.set_user(User::with_id(7, "other", "x"));
    assert_eq!(p.avaliable_users()[0].user_name, "alice");
    p.set_user(User::with_id(8, "alice", "pw2"));
    assert_eq!(p.avaliable_users().len(), 2);
    assert!(p.remove_user_by_id(7));
    assert!(!p.remove_user_by_id(7));
    assert_eq!(p.avaliable_users()[0].user_id, 8);
}

#[test]
fn remove_user_reads_uuid_text() {
    let mut p = Socks5Proxy::new(9000);
    p.set_user(User::with_id(0x67e5504410b1426f9247bb680e5fe0c8, "bob", "pw"));
    assert!(!p.remove_user("not a uuid"));
    assert!(!p.remove_user("00000000-0000-0000-0000-000000000001"));
    assert!(p.remove_user("67e55044-10b1-426f-9247-bb680e5fe0c8"));
    assert!(p.avaliable_users().is_empty());
}

#[test]
fn random_user_ids_differ() {
    let a = User::new("a", "x");
    let b = User::new("a", "x");
    assert_ne!(a.user_id, b.user_id);
    assert_eq!(a.user_name, "a");
    assert_eq!(a.password, "x");
}

#[test]
fn user_lookups() {
    let users = vec![User::with_id(1, "alice", "pw"), User::with_id(2, "bob", "s3"), User::with_id(3, "alice", "other")];
    assert_eq!(User::find_user_by_name(&users, "alice".to_string()).unwrap().user_id, 1);
    assert!(User::find_user_by_name(&users, "carol".to_string()).is_none());
    assert!(User::check_user_avaliable(&users, "bob".to_string()));
    assert!(User::check_user_pass(&users, "alice".to_string(), "other".to_string()));
    assert!(!User::check_user_pass(&users, "bob".to_string(), "pw".to_string()));
    assert!(User::check_credentials(&users, b"bob", b"s3"));
    assert!(!User::check_credentials(&users, b"bob", b"s4"));
    let mut set = UserSet::new();
    set.insert(User::with_id(1, "x", "y"));
    assert!(set.index_of(1).is_some());
    assert!(set.remove_by_id(1));
    assert!(set.to_vec().is_empty());
}

#[test]
fn blocked_addresses() {
    let mut p = Socks5Proxy::new(9000);
    let a = IpAddress::v4(192, 168, 0, 1);
    p.block_ip_address(&a);
    p.block_ip_address(&a);
    assert_eq!(p.get_blocked_address().len(), 1);
    assert!(p.is_blocked(&IpAddress::v4(192, 168, 0, 1)));
    assert!(!p.is_blocked(&IpAddress::v4(192, 168, 0, 2)));
    p.remove_blocked_address(&a);
    assert!(!p.is_blocked(&a));
}

#[test]
fn bandwidth_counter() {
    let mut p = Socks5Proxy::new(9000);
    assert!(!p.has_bandwith());
    p.set_max_bandwith(100);
    assert!(p.has_bandwith());
    p.update_bandwith_usage(60);
    assert_eq!(p.current_bandwith(), 60);
    p.update_bandwith_usage(40);
    assert_eq!(p.bandwith(), 100);
    assert!(!p.has_bandwith());
    p.update_bandwith_usage(u64::MAX);
    assert_eq!(p.current_bandwith(), u64::MAX);
    assert_eq!(p.max_bandwith(), 100);
}

#[test]
fn method_selection_and_credentials_frame() {
    let mut p = Socks5Proxy::new(9000);
    p.set_avaliable_auth_method(vec![0x00]);
    assert_eq!(select_auth_method(&[0x02, 0x00], &p), 0x00);
    assert_eq!(select_auth_method(&[0x01], &p), 0xFF);
    let (n, pw) = parse_user_pass(&[0x01, 0x01, b'a', 0x02, b'p', b'w', 0x99]).unwrap();
    assert_eq!(n, b"a".to_vec());
    assert_eq!(pw, b"pw".to_vec());
    assert!(parse_user_pass(&[0x05, 0x01, b'a', 0x01, b'p']).is_none());
    assert!(parse_user_pass(&[0x01, 0x01, b'a', 0x00]).is_none());
    assert!(parse_user_pass(&[0x01, 0x03, b'a']).is_none());
}

#[test]
fn registry_ports_and_kinds() {
    let mut m = ProxyManager::new();
    let id = m.add_proxy(ProxyType::Socks5, 1080).unwrap();
    assert_eq!(id.len(), 36);
    assert_eq!(id.matches('-').count(), 4);
    for (i, c) in id.chars().enumerate() {
        if i == 8 || i == 13 || i == 18 || i == 23 {
            assert_eq!(c, '-');
        } else {
            assert!(c.is_ascii_digit() || ('a'..='f').contains(&c));
        }
    }
    assert_eq!(m.get_proxy(&id).unwrap().port(), 1080);
    assert_eq!(m.add_proxy(ProxyType::Socks5, 1080).unwrap_err(), ProxyError::PortInUse);
    assert_eq!(m.add_proxy(ProxyType::Http, 1081).unwrap_err(), ProxyError::UnsupportedKind);
    assert_eq!(m.add_proxy(ProxyType::Http, 1080).unwrap_err(), ProxyError::PortInUse);
    let other = m.add_proxy(ProxyType::Socks5, 1081).unwrap();
    assert_ne!(id, other);
    assert_eq!(
        m.register_proxy(id.clone(), ProxyType::Socks5, 1082).unwrap_err(),
        ProxyError::IdInUse
    );
    assert_eq!(m.register_proxy("fixed".to_string(), ProxyType::Socks5, 1082).unwrap(), "fixed");
    assert!(m.get_proxy(&"missing".to_string()).is_none());
    let _ = HttpProxy::new();
}

#[test]
fn registry_dispatches_policy() {
    let mut m = ProxyManager::new();
    let id = m.add_proxy(ProxyType::Socks5, 2000).unwrap();
    let missing = "nope".to_string();
    assert_eq!(m.set_auth_method(&missing, 0), Err(ProxyError::ProxyNotFound));
    assert!(m.list_auth_methods(&missing).is_none());
    m.set_auth_method(&id, 0).unwrap();
    m.set_auth_method(&id, 2).unwrap();
    m.set_auth_method(&id, 2).unwrap();
    assert_eq!(sorted(m.list_auth_methods(&id).unwrap()), vec![0, 2]);
    m.remove_auth_method(&id, 0).unwrap();
    assert_eq!(sorted(m.list_auth_methods(&id).unwrap()), vec![2]);

    m.register_user(Some(&id), User::with_id(5, "samet", "password")).unwrap();
    m.register_user(Some(&id), User::with_id(5, "samet", "password")).unwrap();
    assert_eq!(m.list_users(Some(&id)).unwrap().len(), 1);
    assert_eq!(m.register_user(Some(&missing), User::with_id(6, "a", "b")), Err(ProxyError::ProxyNotFound));
    m.register_user(None, User::with_id(6, "staged", "pw")).unwrap();
    assert_eq!(m.list_users(None).unwrap()[0].user_name, "staged");
    m.remove_user(Some(&id), User::with_id(5, "", "")).unwrap();
    assert!(m.list_users(Some(&id)).unwrap().is_empty());
    m.remove_user(None, User::with_id(6, "", "")).unwrap();
    assert!(m.list_users(None).unwrap().is_empty());
    assert!(m.list_users(Some(&missing)).is_none());

    m.set_max_bandwith(&id, 1024 * 1024).unwrap();
    m.update_bandwith_usage(&id, 10).unwrap();
    let p = m.get_proxy(&id).unwrap();
    assert_eq!(p.max_bandwith(), 1024 * 1024);
    assert_eq!(p.current_bandwith(), 10);
    assert_eq!(m.update_bandwith_usage(&missing, 1), Err(ProxyError::ProxyNotFound));

    m.block_ip_address(&id, &IpAddress::v4(1, 2, 3, 4)).unwrap();
    assert!(m.get_proxy(&id).unwrap().is_blocked(&IpAddress::v4(1, 2, 3, 4)));
    assert_eq!(m.get_proxy(&id).unwrap().get_blocked_address().len(), 1);
    m.remove_blocked_address(&id, &IpAddress::v4(1, 2, 3, 4)).unwrap();
    assert!(!m.get_proxy(&id).unwrap().is_blocked(&IpAddress::v4(1, 2, 3, 4)));
}
