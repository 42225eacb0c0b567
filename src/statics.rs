//! Fixed-size reply builders over byte-coded enums, for callers that answer
//! with ready-made frames.
use vstd::prelude::*;

use crate::codec::{SOCKS5_VERSION, port_to_bytes};

verus! {

/// Conversion of a byte-coded value to and from its byte. `from_u8` reads
/// every byte, giving a fallback value to the bytes it does not know.
pub trait FromToU8: Sized {
    spec fn code(&self) -> u8;

    fn to_u8(&self) -> (r: u8)
        ensures
            r == self.code();

    fn from_u8(value: u8) -> (r: Self);
}

#[derive(Clone, Copy, Debug, PartialEq, Eq, Structural)]
pub enum AddressType {
    IPv4,
    DomainName,
    IPv6,
}

/// An address literal as a reply carries it.
#[derive(Clone, Copy, Debug, PartialEq, Eq)]
pub enum Address {
    IPv4([u8; 4]),
    IPv6([u8; 16]),
}

#[derive(Clone, Copy, Debug, PartialEq, Eq, Structural)]
pub enum AuthMethods {
    NoAuth,
    GsSAPI,
    UsernamePassword,
    IANAAssigned,
    Reserved,
    NotAcceptable,
}

#[derive(Clone, Copy, Debug, PartialEq, Eq, Structural)]
pub enum Commands {
    Connect,
    Bind,
    UDPAssociate,
}

#[derive(Clone, Copy, Debug, PartialEq, Eq, Structural)]
pub enum Reply {
    Succeeded,
    GeneralFailure,
    ConnectionNotAllowed,
    NetworkUnreachable,
    HostUnreachable,
    ConnectionRefused,
    TTLExpired,
    CommandNotSupported,
    AddressTypeNotSupported,
}

impl FromToU8 for Reply {
    open spec fn code(&self) -> u8 {
        match self {
            Reply::Succeeded => 0,
            Reply::GeneralFailure => 1,
            Reply::ConnectionNotAllowed => 2,
            Reply::NetworkUnreachable => 3,
            Reply::HostUnreachable => 4,
            Reply::ConnectionRefused => 5,
            Reply::TTLExpired => 6,
            Reply::CommandNotSupported => 7,
            Reply::AddressTypeNotSupported => 8,
        }
    }

    fn to_u8(&self) -> (r: u8) {
        match self {
            Reply::Succeeded => 0x00,
            Reply::GeneralFailure => 0x01,
            Reply::ConnectionNotAllowed => 0x02,
            Reply::NetworkUnreachable => 0x03,
            Reply::HostUnreachable => 0x04,
            Reply::ConnectionRefused => 0x05,
            Reply::TTLExpired => 0x06,
            Reply::CommandNotSupported => 0x07,
            Reply::AddressTypeNotSupported => 0x08,
        }
    }

    /// Unknown codes read as `GeneralFailure`.
    fn from_u8(value: u8) -> (r: Reply)
        ensures
            value <= 8 ==> r.code() == value,
            value > 8 ==> r == Reply::GeneralFailure,
    {
        match value {
            0x00 => Reply::Succeeded,
            0x01 => Reply::GeneralFailure,
            0x02 => Reply::ConnectionNotAllowed,
            0x03 => Reply::NetworkUnreachable,
            0x04 => Reply::HostUnreachable,
            0x05 => Reply::ConnectionRefused,
            0x06 => Reply::TTLExpired,
            0x07 => Reply::CommandNotSupported,
            0x08 => Reply::AddressTypeNotSupported,
            _ => Reply::GeneralFailure,
        }
    }
}

impl FromToU8 for AuthMethods {
    open spec fn code(&self) -> u8 {
        match self {
            AuthMethods::NoAuth => 0,
            AuthMethods::GsSAPI => 1,
            AuthMethods::UsernamePassword => 2,
            AuthMethods::IANAAssigned => 3,
            AuthMethods::Reserved => 4,
            AuthMethods::NotAcceptable => 0xff,
        }
    }

    fn to_u8(&self) -> (r: u8) {
        match self {
            AuthMethods::NoAuth => 0,
            AuthMethods::GsSAPI => 1,
            AuthMethods::UsernamePassword => 2,
            AuthMethods::IANAAssigned => 3,
            AuthMethods::Reserved => 4,
            AuthMethods::NotAcceptable => 0xff,
        }
    }

    /// Unknown codes read as `NotAcceptable`.
    fn from_u8(value: u8) -> (r: AuthMethods)
        ensures
            (value <= 4 || value == 0xff) ==> r.code() == value,
            !(value <= 4 || value == 0xff) ==> r == AuthMethods::NotAcceptable,
    {
        match value {
            0 => AuthMethods::NoAuth,
            1 => AuthMethods::GsSAPI,
            2 => AuthMethods::UsernamePassword,
            3 => AuthMethods::IANAAssigned,
            4 => AuthMethods::Reserved,
            _ => AuthMethods::NotAcceptable,
        }
    }
}

impl FromToU8 for Commands {
    open spec fn code(&self) -> u8 {
        match self {
            Commands::Connect => 1,
            Commands::Bind => 2,
            Commands::UDPAssociate => 3,
        }
    }

    fn to_u8(&self) -> (r: u8) {
        match self {
            Commands::Connect => 0x01,
            Commands::Bind => 0x02,
            Commands::UDPAssociate => 0x03,
        }
    }

    /// Unknown codes read as `Connect`.
    fn from_u8(value: u8) -> (r: Commands)
        ensures
            1 <= value <= 3 ==> r.code() == value,
            !(1 <= value <= 3) ==> r == Commands::Connect,
    {
        match value {
            0x02 => Commands::Bind,
            0x03 => Commands::UDPAssociate,
            _ => Commands::Connect,
        }
    }
}

impl FromToU8 for AddressType {
    open spec fn code(&self) -> u8 {
        match self {
            AddressType::IPv4 => 1,
            AddressType::DomainName => 3,
            AddressType::IPv6 => 4,
        }
    }

    fn to_u8(&self) -> (r: u8) {
        match self {
            AddressType::IPv4 => 0x01,
            AddressType::DomainName => 0x03,
            AddressType::IPv6 => 0x04,
        }
    }

    /// Unknown codes read as `IPv4`.
    fn from_u8(value: u8) -> (r: AddressType)
        ensures
            (value == 1 || value == 3 || value == 4) ==> r.code() == value,
            !(value == 1 || value == 3 || value == 4) ==> r == AddressType::IPv4,
    {
        match value {
            0x03 => AddressType::DomainName,
            0x04 => AddressType::IPv6,
            _ => AddressType::IPv4,
        }
    }
}

impl Address {
    pub open spec fn octets(&self) -> Seq<u8> {
        match self {
            Address::IPv4(a) => a@,
            Address::IPv6(a) => a@,
        }
    }
}

impl Reply {
    /// `VER STATUS`: a method-selection or status reply.
    pub fn create_auth_reply<T: FromToU8>(status: T) -> (r: [u8; 2])
        ensures
            r@ == seq![SOCKS5_VERSION, status.code()],
    {
        let r: [u8; 2] = [SOCKS5_VERSION, status.to_u8()];
        assert(r@ =~= seq![SOCKS5_VERSION, status.code()]);
        r
    }

    /// `VER STATUS RSV ATYP ADDR PORT`.
    pub fn create_connection_reply(status: Reply, address_type: AddressType, address: Address, port: u16) -> (r: Vec<u8>)
        ensures
            r@ == seq![SOCKS5_VERSION, status.code(), 0u8, address_type.code()] + address.octets()
                + crate::codec::port_be(port),
    {
        let mut reply: Vec<u8> = Vec::new();
        reply.push(SOCKS5_VERSION);
        reply.push(status.to_u8());
        reply.push(0);
        reply.push(address_type.to_u8());
        match address {
            Address::IPv4(a) => {
                crate::codec::append_bytes(&mut reply, a.as_slice());
            },
            Address::IPv6(a) => {
                crate::codec::append_bytes(&mut reply, a.as_slice());
            },
        }
        let (hi, lo) = port_to_bytes(port);
        reply.push(hi);
        reply.push(lo);
        reply
    }
}

} // verus!
