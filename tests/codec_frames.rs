use socks_hub::check_valid_version;
use socks_hub::codec::{
    AddressType, AuthMethods, AuthReply, AuthRequest, CommandType, Commands, IpAddress, ProtocolError, Reply,
    ReplyType, Request, UdpReply, UdpRequest,
};
use socks_hub::statics;
use socks_hub::statics::FromToU8;

#[test]
fn byte_mappings() {
    assert_eq!(Commands::Bind.to_byte(), 0x02);
    assert_eq!(Commands::from_byte(0x03), Ok(Commands::UdpAssociate));
    assert_eq!(Commands::from_byte(0x09), Err(ProtocolError::UnknownCommand));
    assert_eq!(AuthMethods::NotAcceptable.to_byte(), 0xFF);
    assert_eq!(AuthMethods::from_byte(0x80), Ok(AuthMethods::Reserved));
    assert_eq!(AuthMethods::from_byte(0x05), Err(ProtocolError::UnknownAuthMethod));
    assert_eq!(AuthMethods::from_byte_or_not_acceptable(0x42), AuthMethods::NotAcceptable);
    assert_eq!(ReplyType::AddressTypeNotSupported.to_byte(), 0x08);
    assert_eq!(ReplyType::from_byte(0x06), Ok(ReplyType::TtlExpired));
    assert_eq!(ReplyType::from_byte(0x09), Err(ProtocolError::UnknownReplyCode));
    assert_eq!(AddressType::IPv6.to_byte(), 0x04);
    assert_eq!(AddressType::from_byte(0x02), Err(ProtocolError::UnknownAddressType));
    assert_eq!(CommandType::from_byte(0x01), Ok(CommandType::Connect));
    assert_eq!(CommandType::from_byte(0x00), Err(ProtocolError::UnknownCommand));
    assert!(check_valid_version(&5));
    assert!(!check_valid_version(&4));
}

#[test]
fn greeting_round_trip() {
    let g = AuthRequest::new(vec![0x00, 0x02]);
    let bytes = g.to_bytes();
    assert_eq!(bytes, vec![0x05, 0x02, 0x00, 0x02]);
    let back = AuthRequest::from_bytes(&bytes).unwrap();
    assert_eq!(back.methods, vec![0x00, 0x02]);
    assert_eq!(back.nmethods, 2);
}

#[test]
fn greeting_errors() {
    assert_eq!(AuthRequest::from_bytes(&[0x05]).unwrap_err(), ProtocolError::TruncatedFrame);
    assert_eq!(AuthRequest::from_bytes(&[0x04, 0x01, 0x00]).unwrap_err(), ProtocolError::UnsupportedVersion);
    assert_eq!(AuthRequest::from_bytes(&[0x05, 0x02, 0x00]).unwrap_err(), ProtocolError::TruncatedFrame);
    assert_eq!(AuthRequest::from_bytes(&[0x05, 0x00]).unwrap_err(), ProtocolError::TruncatedFrame);
    let trailing = AuthRequest::from_bytes(&[0x05, 0x01, 0x00, 0x99, 0x98]).unwrap();
    assert_eq!(trailing.methods, vec![0x00]);
}

#[test]
fn auth_reply_frames() {
    let r = AuthReply::new(0x05, AuthMethods::UsernamePassword);
    assert_eq!(r.to_byte(), vec![0x05, 0x02]);
    let back = AuthReply::from_bytes(&[0x05, 0xFF]).unwrap();
    assert_eq!(back.method, AuthMethods::NotAcceptable);
    assert_eq!(AuthReply::from_bytes(&[0x05]).unwrap_err(), ProtocolError::TruncatedFrame);
    assert_eq!(AuthReply::from_bytes(&[0x04, 0x00]).unwrap_err(), ProtocolError::UnsupportedVersion);
    assert_eq!(AuthReply::from_bytes(&[0x05, 0x07]).unwrap_err(), ProtocolError::UnknownAuthMethod);
}

#[test]
fn request_round_trip_ipv4() {
    let r = Request::new(CommandType::Connect, AddressType::IPv4, vec![192, 168, 0, 1], 8080);
    let bytes = r.to_bytes();
    assert_eq!(bytes, vec![0x05, 0x01, 0x00, 0x01, 0xC0, 0xA8, 0x00, 0x01, 0x1F, 0x90]);
    let back = Request::from_bytes(&bytes).unwrap();
    assert_eq!(back.cmd, CommandType::Connect);
    assert_eq!(back.atyp, AddressType::IPv4);
    assert_eq!(back.dst_addr, vec![192, 168, 0, 1]);
    assert_eq!(back.dst_port, 8080);
    let target = back.dst_socket_addr.unwrap();
    assert_eq!(target.ip.octets, vec![192, 168, 0, 1]);
    assert_eq!(target.port, 8080);
}

#[test]
fn request_round_trip_domain_and_ipv6() {
    let name = vec![0x0B, b'e', b'x', b'a', b'm', b'p', b'l', b'e', b'.', b'c', b'o', b'm'];
    let r = Request::new(CommandType::Bind, AddressType::DomainName, name.clone(), 443);
    let back = Request::from_bytes(&r.to_bytes()).unwrap();
    assert_eq!(back.cmd, CommandType::Bind);
    assert_eq!(back.dst_addr, name);
    assert_eq!(back.dst_port, 443);
    assert!(back.dst_socket_addr.is_none());

    let v6: Vec<u8> = (1..=16).collect();
    let r = Request::new(CommandType::Connect, AddressType::IPv6, v6.clone(), 65535);
    let back = Request::from_bytes(&r.to_bytes()).unwrap();
    assert_eq!(back.atyp, AddressType::IPv6);
    assert_eq!(back.dst_addr, v6);
    assert_eq!(back.dst_port, 65535);
    assert_eq!(back.dst_socket_addr.unwrap().ip.octets, v6);
}

#[test]
fn request_errors() {
    assert_eq!(Request::from_bytes(&[0x05, 0x01, 0x00, 0x01, 1, 2]).unwrap_err(), ProtocolError::TruncatedFrame);
    assert_eq!(
        Request::from_bytes(&[0x04, 0x01, 0x00, 0x01, 1, 2, 3, 4, 0, 80]).unwrap_err(),
        ProtocolError::UnsupportedVersion
    );
    assert_eq!(
        Request::from_bytes(&[0x05, 0x09, 0x00, 0x01, 1, 2, 3, 4, 0, 80]).unwrap_err(),
        ProtocolError::UnknownCommand
    );
    assert_eq!(
        Request::from_bytes(&[0x05, 0x01, 0x01, 0x01, 1, 2, 3, 4, 0, 80]).unwrap_err(),
        ProtocolError::ReservedByteNonZero
    );
    assert_eq!(
        Request::from_bytes(&[0x05, 0x01, 0x00, 0x02, 1, 2, 3, 4, 0, 80]).unwrap_err(),
        ProtocolError::UnknownAddressType
    );
    assert_eq!(
        Request::from_bytes(&[0x05, 0x01, 0x00, 0x04, 1, 2, 3, 4, 0, 80]).unwrap_err(),
        ProtocolError::TruncatedFrame
    );
}

#[test]
fn reply_frame_bytes() {
    let r = Reply::new(ReplyType::ConnectionNotAllowed, AddressType::IPv4, vec![10, 0, 0, 1], 0x1234);
    assert_eq!(r.to_bytes(), vec![0x05, 0x02, 0x00, 0x01, 10, 0, 0, 1, 0x12, 0x34]);
}

#[test]
fn udp_frames() {
    let r = UdpRequest::new(0, 0, AddressType::IPv4, vec![8, 8, 8, 8], 53, vec![0xAA, 0xBB]);
    let bytes = r.to_bytes();
    assert_eq!(bytes, vec![0, 0, 0, 0x01, 8, 8, 8, 8, 0, 53, 0xAA, 0xBB]);
    let back = UdpRequest::from_bytes(&bytes).unwrap();
    assert_eq!(back.dst_addr, vec![8, 8, 8, 8]);
    assert_eq!(back.dst_port, 53);
    assert_eq!(back.data, vec![0xAA, 0xBB]);
    assert_eq!(UdpRequest::from_bytes(&[0, 0, 0, 0x07, 1, 2, 3]).unwrap_err(), ProtocolError::UnknownAddressType);
    assert_eq!(UdpRequest::from_bytes(&[0, 0, 0, 0x04, 1, 2, 3]).unwrap_err(), ProtocolError::TruncatedFrame);
    let rep = UdpReply::new(AddressType::IPv4, vec![1, 1, 1, 1], 0x0102, vec![9]);
    assert_eq!(rep.to_bytes(), vec![0, 0, 0, 0x01, 1, 1, 1, 1, 1, 2, 9]);
}

#[test]
fn ip_address_literals() {
    assert!(IpAddress::from_octets(&[1, 2, 3]).is_none());
    let a = IpAddress::from_octets(&[1, 2, 3, 4]).unwrap();
    assert!(a.is_v4());
    assert!(a.same_as(&IpAddress::v4(1, 2, 3, 4)));
    assert!(!a.same_as(&IpAddress::v4(1, 2, 3, 5)));
}

#[test]
fn ready_made_replies() {
    assert_eq!(statics::Reply::create_auth_reply(statics::AuthMethods::UsernamePassword), [5, 2]);
    assert_eq!(statics::Reply::create_auth_reply(statics::Reply::GeneralFailure), [5, 1]);
    let r = statics::Reply::create_connection_reply(
        statics::Reply::Succeeded,
        statics::AddressType::IPv4,
        statics::Address::IPv4([127, 0, 0, 1]),
        1080,
    );
    assert_eq!(r, vec![5, 0, 0, 1, 127, 0, 0, 1, 0x04, 0x38]);
    assert_eq!(statics::Reply::from_u8(0x42), statics::Reply::GeneralFailure);
    assert_eq!(statics::Commands::from_u8(0x02), statics::Commands::Bind);
    assert_eq!(statics::AddressType::from_u8(0x04).to_u8(), 0x04);
    assert_eq!(statics::AuthMethods::from_u8(0x80), statics::AuthMethods::NotAcceptable);
}
