//! SOCKS5 wire frames: byte mappings of the protocol's tagged values, and
//! encoders and decoders for the greeting, method selection, request, reply
//! and UDP datagram headers.
use vstd::prelude::*;

verus! {

/// The version byte of every SOCKS5 frame but the RFC 1929 sub-negotiation.
pub const SOCKS5_VERSION: u8 = 5;

/// The version byte of the RFC 1929 username/password sub-negotiation.
pub const AUTH_SUB_VERSION: u8 = 1;

/// Ways in which a frame from the wire is rejected.
#[derive(Clone, Copy, Debug, PartialEq, Eq, Structural)]
pub enum ProtocolError {
    UnsupportedVersion,
    ReservedByteNonZero,
    TruncatedFrame,
    UnknownAddressType,
    UnknownCommand,
    UnknownAuthMethod,
    UnknownReplyCode,
    AddressResolutionFailed,
}

// ---------------------------------------------------------------------------
// Tagged values and their bytes
// ---------------------------------------------------------------------------

/// The command of a request.
#[derive(Clone, Copy, Debug, PartialEq, Eq, Structural)]
pub enum Commands {
    Connect,
    Bind,
    UdpAssociate,
}

pub open spec fn is_command_byte(b: u8) -> bool {
    b == 1 || b == 2 || b == 3
}

impl Commands {
    pub open spec fn byte(&self) -> u8 {
        match self {
            Commands::Connect => 1,
            Commands::Bind => 2,
            Commands::UdpAssociate => 3,
        }
    }

    pub fn to_byte(&self) -> (r: u8)
        ensures
            r == self.byte(),
    {
        match self {
            Commands::Connect => 0x01,
            Commands::Bind => 0x02,
            Commands::UdpAssociate => 0x03,
        }
    }

    pub fn from_byte(byte: u8) -> (r: Result<Commands, ProtocolError>)
        ensures
            r is Ok <==> is_command_byte(byte),
            r matches Ok(c) ==> c.byte() == byte,
            r matches Err(e) ==> e == ProtocolError::UnknownCommand,
    {
        match byte {
            0x01 => Ok(Commands::Connect),
            0x02 => Ok(Commands::Bind),
            0x03 => Ok(Commands::UdpAssociate),
            _ => Err(ProtocolError::UnknownCommand),
        }
    }
}

/// An authentication method as it is named on the wire.
#[derive(Clone, Copy, Debug, PartialEq, Eq, Structural)]
pub enum AuthMethods {
    NoAuth,
    GsSAPI,
    UsernamePassword,
    IANAAssigned,
    Reserved,
    NotAcceptable,
}

pub open spec fn is_auth_method_byte(b: u8) -> bool {
    b == 0 || b == 1 || b == 2 || b == 3 || b == 0x80 || b == 0xff
}

/// Method byte: no authentication.
pub const NO_AUTH: u8 = 0;

/// Method byte: GSSAPI.
pub const GSSAPI: u8 = 1;

/// Method byte: username and password (RFC 1929).
pub const USERNAME_PASSWORD: u8 = 2;

/// Method byte: none of the offered methods is acceptable.
pub const NOT_ACCEPTABLE: u8 = 0xff;

impl AuthMethods {
    pub open spec fn byte(&self) -> u8 {
        match self {
            AuthMethods::NoAuth => 0,
            AuthMethods::GsSAPI => 1,
            AuthMethods::UsernamePassword => 2,
            AuthMethods::IANAAssigned => 3,
            AuthMethods::Reserved => 0x80,
            AuthMethods::NotAcceptable => 0xff,
        }
    }

    pub fn to_byte(&self) -> (r: u8)
        ensures
            r == self.byte(),
    {
        match self {
            AuthMethods::NoAuth => 0x00,
            AuthMethods::GsSAPI => 0x01,
            AuthMethods::UsernamePassword => 0x02,
            AuthMethods::IANAAssigned => 0x03,
            AuthMethods::Reserved => 0x80,
            AuthMethods::NotAcceptable => 0xff,
        }
    }

    pub fn from_byte(byte: u8) -> (r: Result<AuthMethods, ProtocolError>)
        ensures
            r is Ok <==> is_auth_method_byte(byte),
            r matches Ok(m) ==> m.byte() == byte,
            r matches Err(e) ==> e == ProtocolError::UnknownAuthMethod,
    {
        match byte {
            0x00 => Ok(AuthMethods::NoAuth),
            0x01 => Ok(AuthMethods::GsSAPI),
            0x02 => Ok(AuthMethods::UsernamePassword),
            0x03 => Ok(AuthMethods::IANAAssigned),
            0x80 => Ok(AuthMethods::Reserved),
            0xff => Ok(AuthMethods::NotAcceptable),
            _ => Err(ProtocolError::UnknownAuthMethod),
        }
    }

    /// The method that a byte names, with every unknown byte read as
    /// `NotAcceptable`.
    pub fn from_byte_or_not_acceptable(byte: u8) -> (r: AuthMethods)
        ensures
            is_auth_method_byte(byte) ==> r.byte() == byte,
            !is_auth_method_byte(byte) ==> r == AuthMethods::NotAcceptable,
    {
        match AuthMethods::from_byte(byte) {
            Ok(m) => m,
            Err(_) => AuthMethods::NotAcceptable,
        }
    }
}

/// The status code of a command reply.
#[derive(Clone, Copy, Debug, PartialEq, Eq, Structural)]
pub enum ReplyType {
    Succeeded,
    GeneralFailure,
    ConnectionNotAllowed,
    NetworkUnreachable,
    HostUnreachable,
    ConnectionRefused,
    TtlExpired,
    CommandNotSupported,
    AddressTypeNotSupported,
}

impl ReplyType {
    pub open spec fn byte(&self) -> u8 {
        match self {
            ReplyType::Succeeded => 0,
            ReplyType::GeneralFailure => 1,
            ReplyType::ConnectionNotAllowed => 2,
            ReplyType::NetworkUnreachable => 3,
            ReplyType::HostUnreachable => 4,
            ReplyType::ConnectionRefused => 5,
            ReplyType::TtlExpired => 6,
            ReplyType::CommandNotSupported => 7,
            ReplyType::AddressTypeNotSupported => 8,
        }
    }

    pub fn to_byte(&self) -> (r: u8)
        ensures
            r == self.byte(),
    {
        match self {
            ReplyType::Succeeded => 0x00,
            ReplyType::GeneralFailure => 0x01,
            ReplyType::ConnectionNotAllowed => 0x02,
            ReplyType::NetworkUnreachable => 0x03,
            ReplyType::HostUnreachable => 0x04,
            ReplyType::ConnectionRefused => 0x05,
            ReplyType::TtlExpired => 0x06,
            ReplyType::CommandNotSupported => 0x07,
            ReplyType::AddressTypeNotSupported => 0x08,
        }
    }

    pub fn from_byte(byte: u8) -> (r: Result<ReplyType, ProtocolError>)
        ensures
            r is Ok <==> byte <= 8,
            r matches Ok(t) ==> t.byte() == byte,
            r matches Err(e) ==> e == ProtocolError::UnknownReplyCode,
    {
        match byte {
            0x00 => Ok(ReplyType::Succeeded),
            0x01 => Ok(ReplyType::GeneralFailure),
            0x02 => Ok(ReplyType::ConnectionNotAllowed),
            0x03 => Ok(ReplyType::NetworkUnreachable),
            0x04 => Ok(ReplyType::HostUnreachable),
            0x05 => Ok(ReplyType::ConnectionRefused),
            0x06 => Ok(ReplyType::TtlExpired),
            0x07 => Ok(ReplyType::CommandNotSupported),
            0x08 => Ok(ReplyType::AddressTypeNotSupported),
            _ => Err(ProtocolError::UnknownReplyCode),
        }
    }
}

/// The type of the address field of a request or reply.
#[derive(Clone, Copy, Debug, PartialEq, Eq, Structural)]
pub enum AddressType {
    IPv4,
    DomainName,
    IPv6,
}

pub open spec fn is_address_type_byte(b: u8) -> bool {
    b == 1 || b == 3 || b == 4
}

impl AddressType {
    pub open spec fn byte(&self) -> u8 {
        match self {
            AddressType::IPv4 => 1,
            AddressType::DomainName => 3,
            AddressType::IPv6 => 4,
        }
    }

    pub fn to_byte(&self) -> (r: u8)
        ensures
            r == self.byte(),
    {
        match self {
            AddressType::IPv4 => 0x01,
            AddressType::DomainName => 0x03,
            AddressType::IPv6 => 0x04,
        }
    }

    pub fn from_byte(byte: u8) -> (r: Result<AddressType, ProtocolError>)
        ensures
            r is Ok <==> is_address_type_byte(byte),
            r matches Ok(t) ==> t.byte() == byte,
            r matches Err(e) ==> e == ProtocolError::UnknownAddressType,
    {
        match byte {
            0x01 => Ok(AddressType::IPv4),
            0x03 => Ok(AddressType::DomainName),
            0x04 => Ok(AddressType::IPv6),
            _ => Err(ProtocolError::UnknownAddressType),
        }
    }
}

/// The command of a request, as the request frame carries it.
#[derive(Clone, Copy, Debug, PartialEq, Eq, Structural)]
pub enum CommandType {
    Connect,
    Bind,
    UdpAssociate,
}

impl CommandType {
    pub open spec fn byte(&self) -> u8 {
        match self {
            CommandType::Connect => 1,
            CommandType::Bind => 2,
            CommandType::UdpAssociate => 3,
        }
    }

    pub fn to_byte(&self) -> (r: u8)
        ensures
            r == self.byte(),
    {
        match self {
            CommandType::Connect => 0x01,
            CommandType::Bind => 0x02,
            CommandType::UdpAssociate => 0x03,
        }
    }

    pub fn from_byte(byte: u8) -> (r: Result<CommandType, ProtocolError>)
        ensures
            r is Ok <==> is_command_byte(byte),
            r matches Ok(c) ==> c.byte() == byte,
            r matches Err(e) ==> e == ProtocolError::UnknownCommand,
    {
        match byte {
            0x01 => Ok(CommandType::Connect),
            0x02 => Ok(CommandType::Bind),
            0x03 => Ok(CommandType::UdpAssociate),
            _ => Err(ProtocolError::UnknownCommand),
        }
    }
}

// ---------------------------------------------------------------------------
// Byte-level helpers
// ---------------------------------------------------------------------------

/// The two bytes of a port in network (big-endian) order.
pub open spec fn port_be(p: u16) -> Seq<u8> {
    seq![(p / 256) as u8, (p % 256) as u8]
}

/// The port whose big-endian bytes are `hi`, `lo`.
pub open spec fn port_of(hi: u8, lo: u8) -> u16 {
    (hi as int * 256 + lo as int) as u16
}

pub proof fn lemma_port_round_trip(p: u16)
    ensures
        port_of(port_be(p)[0], port_be(p)[1]) == p,
{
    assert(port_be(p)[0] as int == p as int / 256);
    assert(port_be(p)[1] as int == p as int % 256);
}

pub fn port_to_bytes(p: u16) -> (r: (u8, u8))
    ensures
        seq![r.0, r.1] == port_be(p),
{
    ((p / 256) as u8, (p % 256) as u8)
}

pub fn port_from_bytes(hi: u8, lo: u8) -> (r: u16)
    ensures
        r == port_of(hi, lo),
{
    (hi as u16) * 256 + (lo as u16)
}

/// Copies `src[start..end]` into a new vector.
pub fn copy_range(src: &[u8], start: usize, end: usize) -> (r: Vec<u8>)
    requires
        start <= end <= src@.len(),
    ensures
        r@ == src@.subrange(start as int, end as int),
{
    let mut r: Vec<u8> = Vec::new();
    let mut i: usize = start;
    while i < end
        invariant
            start <= i <= end <= src@.len(),
            r@ == src@.subrange(start as int, i as int),
        decreases end - i,
    {
        r.push(src[i]);
        i = i + 1;
    }
    r
}

/// Appends every byte of `src` to `out`.
pub fn append_bytes(out: &mut Vec<u8>, src: &[u8])
    ensures
        final(out)@ == old(out)@ + src@,
{
    let ghost start = out@;
    let mut i: usize = 0;
    while i < src.len()
        invariant
            i <= src@.len(),
            out@ == start + src@.subrange(0, i as int),
        decreases src@.len() - i,
    {
        out.push(src[i]);
        i = i + 1;
    }
    assert(src@.subrange(0, src@.len() as int) == src@);
}

/// Byte-exact comparison.
pub fn bytes_equal(a: &[u8], b: &[u8]) -> (r: bool)
    ensures
        r == (a@ == b@),
{
    if a.len() != b.len() {
        return false;
    }
    let mut i: usize = 0;
    while i < a.len()
        invariant
            a@.len() == b@.len(),
            i <= a@.len(),
            forall|j: int| 0 <= j < i ==> a@[j] == b@[j],
        decreases a@.len() - i,
    {
        if a[i] != b[i] {
            return false;
        }
        i = i + 1;
    }
    assert(a@ =~= b@);
    true
}

/// Membership test on a byte list.
pub fn contains_byte(v: &[u8], x: u8) -> (r: bool)
    ensures
        r == v@.contains(x),
{
    let mut i: usize = 0;
    while i < v.len()
        invariant
            i <= v@.len(),
            forall|j: int| 0 <= j < i ==> v@[j] != x,
        decreases v@.len() - i,
    {
        if v[i] == x {
            assert(v@[i as int] == x);
            return true;
        }
        i = i + 1;
    }
    false
}

// ---------------------------------------------------------------------------
// Addresses
// ---------------------------------------------------------------------------

/// An IP address given by its octets: four for IPv4, sixteen for IPv6.
#[derive(Debug)]
pub struct IpAddress {
    pub octets: Vec<u8>,
}

impl View for IpAddress {
    type V = Seq<u8>;

    open spec fn view(&self) -> Seq<u8> {
        self.octets@
    }
}

pub open spec fn is_ip_octets(s: Seq<u8>) -> bool {
    s.len() == 4 || s.len() == 16
}

impl IpAddress {
    pub open spec fn wf(&self) -> bool {
        is_ip_octets(self@)
    }

    pub fn v4(a: u8, b: u8, c: u8, d: u8) -> (r: IpAddress)
        ensures
            r@ == seq![a, b, c, d],
            r.wf(),
    {
        let mut octets: Vec<u8> = Vec::new();
        octets.push(a);
        octets.push(b);
        octets.push(c);
        octets.push(d);
        IpAddress { octets }
    }

    /// An address from its octets, when there are four or sixteen of them.
    pub fn from_octets(octets: &[u8]) -> (r: Option<IpAddress>)
        ensures
            r is Some <==> is_ip_octets(octets@),
            r matches Some(a) ==> a@ == octets@,
    {
        if octets.len() == 4 || octets.len() == 16 {
            let v = copy_range(octets, 0, octets.len());
            assert(octets@.subrange(0, octets@.len() as int) == octets@);
            Some(IpAddress { octets: v })
        } else {
            None
        }
    }

    pub fn is_v4(&self) -> (r: bool)
        ensures
            r == (self@.len() == 4),
    {
        self.octets.len() == 4
    }

    pub fn same_as(&self, other: &IpAddress) -> (r: bool)
        ensures
            r == (self@ == other@),
    {
        bytes_equal(self.octets.as_slice(), other.octets.as_slice())
    }

    pub fn duplicate(&self) -> (r: IpAddress)
        ensures
            r@ == self@,
    {
        IpAddress { octets: copy_range(self.octets.as_slice(), 0, self.octets.len()) }
    }
}

/// An IP address together with a TCP or UDP port.
#[derive(Debug)]
pub struct SocketAddress {
    pub ip: IpAddress,
    pub port: u16,
}

impl View for SocketAddress {
    type V = (Seq<u8>, u16);

    open spec fn view(&self) -> (Seq<u8>, u16) {
        (self.ip@, self.port)
    }
}

// ---------------------------------------------------------------------------
// Greeting and method selection
// ---------------------------------------------------------------------------

/// The client's greeting: `VER NMETHODS METHODS`.
#[derive(Debug)]
pub struct AuthRequest {
    pub version: u8,
    pub nmethods: u8,
    pub methods: Vec<u8>,
}

/// Why a greeting is rejected, if it is: the first check that fails.
pub open spec fn greeting_error(b: Seq<u8>) -> Option<ProtocolError> {
    if b.len() < 2 {
        Some(ProtocolError::TruncatedFrame)
    } else if b[0] != SOCKS5_VERSION {
        Some(ProtocolError::UnsupportedVersion)
    } else if b[1] == 0 || b.len() < 2 + b[1] as int {
        Some(ProtocolError::TruncatedFrame)
    } else {
        None
    }
}

/// The methods that a well-formed greeting offers.
pub open spec fn greeting_methods(b: Seq<u8>) -> Seq<u8> {
    b.subrange(2, 2 + b[1] as int)
}

impl AuthRequest {
    pub fn new(methods: Vec<u8>) -> (r: AuthRequest)
        requires
            methods@.len() <= 255,
        ensures
            r.version == SOCKS5_VERSION,
            r.nmethods == methods@.len(),
            r.methods@ == methods@,
    {
        let n = methods.len() as u8;
        AuthRequest { version: SOCKS5_VERSION, nmethods: n, methods }
    }

    pub fn to_bytes(&self) -> (r: Vec<u8>)
        ensures
            r@ == seq![self.version, self.nmethods] + self.methods@,
    {
        let mut bytes: Vec<u8> = Vec::new();
        bytes.push(self.version);
        bytes.push(self.nmethods);
        append_bytes(&mut bytes, self.methods.as_slice());
        bytes
    }

    /// Reads a greeting; bytes after the method list are ignored.
    pub fn from_bytes(bytes: &[u8]) -> (r: Result<AuthRequest, ProtocolError>)
        ensures
            match r {
                Ok(req) => {
                    &&& greeting_error(bytes@) is None
                    &&& req.version == bytes@[0]
                    &&& req.nmethods == bytes@[1]
                    &&& req.methods@ == greeting_methods(bytes@)
                },
                Err(e) => greeting_error(bytes@) == Some(e),
            },
    {
        if bytes.len() < 2 {
            return Err(ProtocolError::TruncatedFrame);
        }
        let version = bytes[0];
        if version != SOCKS5_VERSION {
            return Err(ProtocolError::UnsupportedVersion);
        }
        let nmethods = bytes[1];
        if nmethods == 0 || bytes.len() < 2 + nmethods as usize {
            return Err(ProtocolError::TruncatedFrame);
        }
        let methods = copy_range(bytes, 2, 2 + nmethods as usize);
        Ok(AuthRequest { version, nmethods, methods })
    }
}

/// The server's method selection: `VER METHOD`.
#[derive(Debug)]
pub struct AuthReply {
    pub version: u8,
    pub method: AuthMethods,
}

impl AuthReply {
    pub fn new(version: u8, method: AuthMethods) -> (r: AuthReply)
        ensures
            r.version == version,
            r.method == method,
    {
        AuthReply { version, method }
    }

    pub fn from_bytes(bytes: &[u8]) -> (r: Result<AuthReply, ProtocolError>)
        ensures
            bytes@.len() < 2 ==> r == Err::<AuthReply, _>(ProtocolError::TruncatedFrame),
            bytes@.len() >= 2 && bytes@[0] != SOCKS5_VERSION ==> r == Err::<AuthReply, _>(
                ProtocolError::UnsupportedVersion,
            ),
            bytes@.len() >= 2 && bytes@[0] == SOCKS5_VERSION && !is_auth_method_byte(bytes@[1])
                ==> r == Err::<AuthReply, _>(ProtocolError::UnknownAuthMethod),
            r matches Ok(rep) ==> {
                &&& bytes@.len() >= 2
                &&& rep.version == SOCKS5_VERSION
                &&& rep.method.byte() == bytes@[1]
            },
            bytes@.len() >= 2 && bytes@[0] == SOCKS5_VERSION && is_auth_method_byte(bytes@[1])
                ==> r is Ok,
    {
        if bytes.len() < 2 {
            return Err(ProtocolError::TruncatedFrame);
        }
        let version = bytes[0];
        if version != SOCKS5_VERSION {
            return Err(ProtocolError::UnsupportedVersion);
        }
        match AuthMethods::from_byte(bytes[1]) {
            Ok(method) => Ok(AuthReply { version, method }),
            Err(e) => Err(e),
        }
    }

    pub fn to_byte(&self) -> (r: Vec<u8>)
        ensures
            r@ == seq![self.version, self.method.byte()],
    {
        let mut bytes: Vec<u8> = Vec::new();
        bytes.push(self.version);
        bytes.push(self.method.to_byte());
        bytes
    }
}

// ---------------------------------------------------------------------------
// Request and reply
// ---------------------------------------------------------------------------

/// `VER CODE RSV ATYP ADDR PORT`: the shape shared by requests and replies.
pub open spec fn address_frame(ver: u8, code: u8, rsv: u8, atyp: u8, addr: Seq<u8>, port: u16) -> Seq<u8> {
    seq![ver, code, rsv, atyp] + addr + port_be(port)
}

/// Appends `addr` and then `port` in network order.
fn append_address(out: &mut Vec<u8>, addr: &[u8], port: u16)
    ensures
        final(out)@ == old(out)@ + addr@ + port_be(port),
{
    append_bytes(out, addr);
    let (hi, lo) = port_to_bytes(port);
    out.push(hi);
    out.push(lo);
}

/// Whether `addr` is a well-formed address field of type `atyp`: four or
/// sixteen octets, or a length byte followed by that many name bytes.
pub open spec fn address_fits(atyp: AddressType, addr: Seq<u8>) -> bool {
    match atyp {
        AddressType::IPv4 => addr.len() == 4,
        AddressType::IPv6 => addr.len() == 16,
        AddressType::DomainName => addr.len() >= 1 && addr[0] as int == addr.len() - 1,
    }
}

pub open spec fn command_of(b: u8) -> CommandType {
    if b == 1 {
        CommandType::Connect
    } else if b == 2 {
        CommandType::Bind
    } else {
        CommandType::UdpAssociate
    }
}

pub open spec fn address_type_of(b: u8) -> AddressType {
    if b == 1 {
        AddressType::IPv4
    } else if b == 4 {
        AddressType::IPv6
    } else {
        AddressType::DomainName
    }
}

/// Length of the address field that starts at index 4 of `b`, by its type byte.
pub open spec fn address_len(atyp: u8, b: Seq<u8>) -> int {
    if atyp == 1 {
        4
    } else if atyp == 4 {
        16
    } else {
        b[4] as int + 1
    }
}

/// Why a request frame is rejected, if it is: the first check that fails.
pub open spec fn request_error(b: Seq<u8>) -> Option<ProtocolError> {
    if b.len() < 7 {
        Some(ProtocolError::TruncatedFrame)
    } else if b[0] != SOCKS5_VERSION {
        Some(ProtocolError::UnsupportedVersion)
    } else if !is_command_byte(b[1]) {
        Some(ProtocolError::UnknownCommand)
    } else if b[2] != 0 {
        Some(ProtocolError::ReservedByteNonZero)
    } else if !is_address_type_byte(b[3]) {
        Some(ProtocolError::UnknownAddressType)
    } else if b.len() < 6 + address_len(b[3], b) {
        Some(ProtocolError::TruncatedFrame)
    } else {
        None
    }
}

/// The fields of a request but its resolved address:
/// version, command, reserved byte, address type, address, port.
pub type RequestFields = (u8, CommandType, u8, AddressType, Seq<u8>, u16);

/// The fields that a well-formed request frame carries.
pub open spec fn decoded_request(b: Seq<u8>) -> RequestFields {
    let n = address_len(b[3], b);
    (
        b[0],
        command_of(b[1]),
        b[2],
        address_type_of(b[3]),
        b.subrange(4, 4 + n),
        port_of(b[4 + n], b[5 + n]),
    )
}

/// The frame that carries the fields `f`.
pub open spec fn request_frame(f: RequestFields) -> Seq<u8> {
    address_frame(f.0, f.1.byte(), f.2, f.3.byte(), f.4, f.5)
}

/// The socket address that an address field names without a lookup: the
/// IPv4 and IPv6 literals do, a domain name does not.
pub open spec fn literal_target(atyp: AddressType, addr: Seq<u8>, port: u16) -> Option<(Seq<u8>, u16)> {
    match atyp {
        AddressType::DomainName => None,
        _ => Some((addr, port)),
    }
}

pub open spec fn target_view(t: Option<SocketAddress>) -> Option<(Seq<u8>, u16)> {
    match t {
        Some(s) => Some(s@),
        None => None,
    }
}

/// A client request: `VER CMD RSV ATYP DST.ADDR DST.PORT`, with the socket
/// address it names once that is known.
#[derive(Debug)]
pub struct Request {
    pub version: u8,
    pub cmd: CommandType,
    pub reserved: u8,
    pub atyp: AddressType,
    pub dst_addr: Vec<u8>,
    pub dst_port: u16,
    pub dst_socket_addr: Option<SocketAddress>,
}

impl Request {
    pub open spec fn fields(&self) -> RequestFields {
        (self.version, self.cmd, self.reserved, self.atyp, self.dst_addr@, self.dst_port)
    }

    pub fn new(cmd: CommandType, atyp: AddressType, dst_addr: Vec<u8>, dst_port: u16) -> (r: Request)
        ensures
            r.fields() == (SOCKS5_VERSION, cmd, 0u8, atyp, dst_addr@, dst_port),
            r.dst_socket_addr is None,
    {
        Request {
            version: SOCKS5_VERSION,
            cmd,
            reserved: 0x00,
            atyp,
            dst_addr,
            dst_port,
            dst_socket_addr: None,
        }
    }

    pub fn to_bytes(&self) -> (r: Vec<u8>)
        ensures
            r@ == request_frame(self.fields()),
    {
        let mut bytes: Vec<u8> = Vec::new();
        bytes.push(self.version);
        bytes.push(self.cmd.to_byte());
        bytes.push(self.reserved);
        bytes.push(self.atyp.to_byte());
        append_address(&mut bytes, self.dst_addr.as_slice(), self.dst_port);
        bytes
    }

    /// Reads a request; bytes after the port are ignored. An IPv4 or IPv6
    /// destination is composed into `dst_socket_addr` at once; a domain name
    /// is left for the caller to resolve.
    pub fn from_bytes(bytes: &[u8]) -> (r: Result<Request, ProtocolError>)
        ensures
            match r {
                Ok(req) => {
                    &&& request_error(bytes@) is None
                    &&& req.fields() == decoded_request(bytes@)
                    &&& target_view(req.dst_socket_addr) == literal_target(
                        req.atyp,
                        req.dst_addr@,
                        req.dst_port,
                    )
                    &&& req.dst_socket_addr matches Some(s) ==> s.ip.wf()
                },
                Err(e) => request_error(bytes@) == Some(e),
            },
    {
        if bytes.len() < 7 {
            return Err(ProtocolError::TruncatedFrame);
        }
        if bytes[0] != SOCKS5_VERSION {
            return Err(ProtocolError::UnsupportedVersion);
        }
        let cmd = match CommandType::from_byte(bytes[1]) {
            Ok(c) => c,
            Err(e) => {
                return Err(e);
            },
        };
        if bytes[2] != 0x00 {
            return Err(ProtocolError::ReservedByteNonZero);
        }
        let atyp = match AddressType::from_byte(bytes[3]) {
            Ok(t) => t,
            Err(e) => {
                return Err(e);
            },
        };
        let n: usize = match atyp {
            AddressType::IPv4 => 4,
            AddressType::IPv6 => 16,
            AddressType::DomainName => bytes[4] as usize + 1,
        };
        if bytes.len() < 6 + n {
            return Err(ProtocolError::TruncatedFrame);
        }
        let dst_addr = copy_range(bytes, 4, 4 + n);
        let dst_port = port_from_bytes(bytes[4 + n], bytes[5 + n]);
        let dst_socket_addr = match atyp {
            AddressType::DomainName => None,
            _ => {
                let ip = IpAddress { octets: copy_range(bytes, 4, 4 + n) };
                Some(SocketAddress { ip, port: dst_port })
            },
        };
        Ok(Request {
            version: bytes[0],
            cmd,
            reserved: bytes[2],
            atyp,
            dst_addr,
            dst_port,
            dst_socket_addr,
        })
    }
}

/// Decoding what was encoded gives back the same request, for every request
/// whose version and reserved bytes are the protocol's and whose address
/// field fits its type; the resolved socket address is not on the wire.
pub proof fn lemma_request_round_trip(f: RequestFields)
    requires
        f.0 == SOCKS5_VERSION,
        f.2 == 0,
        address_fits(f.3, f.4),
    ensures
        request_error(request_frame(f)) is None,
        decoded_request(request_frame(f)) == f,
{
    let b = request_frame(f);
    let n = f.4.len() as int;
    assert(b.len() == 6 + n);
    assert(b[3] == f.3.byte());
    assert(b[4] == f.4[0]) by {
        assert(n >= 1);
    }
    assert(address_len(b[3], b) == n);
    assert(b.subrange(4, 4 + n) =~= f.4);
    assert(b[4 + n] == port_be(f.5)[0]);
    assert(b[5 + n] == port_be(f.5)[1]);
    lemma_port_round_trip(f.5);
}

/// A command reply: `VER REP RSV ATYP BND.ADDR BND.PORT`.
#[derive(Debug)]
pub struct Reply {
    pub version: u8,
    pub reply: ReplyType,
    pub reserved: u8,
    pub atyp: AddressType,
    pub bnd_addr: Vec<u8>,
    pub bnd_port: u16,
}

/// The bytes of a reply with status `rep` that carries `addr` and `port`.
pub open spec fn reply_frame(rep: ReplyType, atyp: AddressType, addr: Seq<u8>, port: u16) -> Seq<u8> {
    address_frame(SOCKS5_VERSION, rep.byte(), 0, atyp.byte(), addr, port)
}

impl Reply {
    pub fn new(reply: ReplyType, atyp: AddressType, bnd_addr: Vec<u8>, bnd_port: u16) -> (r: Reply)
        ensures
            r.version == SOCKS5_VERSION,
            r.reply == reply,
            r.reserved == 0,
            r.atyp == atyp,
            r.bnd_addr@ == bnd_addr@,
            r.bnd_port == bnd_port,
    {
        Reply { version: SOCKS5_VERSION, reply, reserved: 0x00, atyp, bnd_addr, bnd_port }
    }

    pub fn to_bytes(&self) -> (r: Vec<u8>)
        ensures
            r@ == address_frame(
                self.version,
                self.reply.byte(),
                self.reserved,
                self.atyp.byte(),
                self.bnd_addr@,
                self.bnd_port,
            ),
    {
        let mut bytes: Vec<u8> = Vec::new();
        bytes.push(self.version);
        bytes.push(self.reply.to_byte());
        bytes.push(self.reserved);
        bytes.push(self.atyp.to_byte());
        append_address(&mut bytes, self.bnd_addr.as_slice(), self.bnd_port);
        bytes
    }
}

// ---------------------------------------------------------------------------
// UDP datagram header
// ---------------------------------------------------------------------------

/// `RSV FRAG ATYP ADDR PORT DATA`, the header of a relayed datagram.
pub open spec fn udp_frame(rsv: u16, frag: u8, atyp: u8, addr: Seq<u8>, port: u16, data: Seq<u8>) -> Seq<u8> {
    port_be(rsv) + seq![frag, atyp] + addr + port_be(port) + data
}

/// Why a datagram header is rejected, if it is: the first check that fails.
pub open spec fn udp_error(b: Seq<u8>) -> Option<ProtocolError> {
    if b.len() < 7 {
        Some(ProtocolError::TruncatedFrame)
    } else if !is_address_type_byte(b[3]) {
        Some(ProtocolError::UnknownAddressType)
    } else if b.len() < 6 + address_len(b[3], b) {
        Some(ProtocolError::TruncatedFrame)
    } else {
        None
    }
}

/// A datagram sent by the client through the relay.
#[derive(Debug)]
pub struct UdpRequest {
    pub reserved: u16,
    pub frag: u8,
    pub atyp: AddressType,
    pub dst_addr: Vec<u8>,
    pub dst_port: u16,
    pub data: Vec<u8>,
}

impl UdpRequest {
    pub fn new(
        reserved: u16,
        frag: u8,
        atyp: AddressType,
        dst_addr: Vec<u8>,
        dst_port: u16,
        data: Vec<u8>,
    ) -> (r: UdpRequest)
        ensures
            r.reserved == reserved,
            r.frag == frag,
            r.atyp == atyp,
            r.dst_addr@ == dst_addr@,
            r.dst_port == dst_port,
            r.data@ == data@,
    {
        UdpRequest { reserved, frag, atyp, dst_addr, dst_port, data }
    }

    pub fn to_bytes(&self) -> (r: Vec<u8>)
        ensures
            r@ == udp_frame(
                self.reserved,
                self.frag,
                self.atyp.byte(),
                self.dst_addr@,
                self.dst_port,
                self.data@,
            ),
    {
        udp_bytes(self.reserved, self.frag, self.atyp, self.dst_addr.as_slice(), self.dst_port, self.data.as_slice())
    }

    /// Reads a datagram; the address field starts right after the type byte,
    /// as in a request, and everything after the port is payload.
    pub fn from_bytes(bytes: &[u8]) -> (r: Result<UdpRequest, ProtocolError>)
        ensures
            match r {
                Ok(req) => {
                    let n = address_len(bytes@[3], bytes@);
                    &&& udp_error(bytes@) is None
                    &&& req.reserved == port_of(bytes@[0], bytes@[1])
                    &&& req.frag == bytes@[2]
                    &&& req.atyp.byte() == bytes@[3]
                    &&& req.dst_addr@ == bytes@.subrange(4, 4 + n)
                    &&& req.dst_port == port_of(bytes@[4 + n], bytes@[5 + n])
                    &&& req.data@ == bytes@.subrange(6 + n, bytes@.len() as int)
                },
                Err(e) => udp_error(bytes@) == Some(e),
            },
    {
        if bytes.len() < 7 {
            return Err(ProtocolError::TruncatedFrame);
        }
        let reserved = port_from_bytes(bytes[0], bytes[1]);
        let frag = bytes[2];
        let atyp = match AddressType::from_byte(bytes[3]) {
            Ok(t) => t,
            Err(e) => {
                return Err(e);
            },
        };
        let n: usize = match atyp {
            AddressType::IPv4 => 4,
            AddressType::IPv6 => 16,
            AddressType::DomainName => bytes[4] as usize + 1,
        };
        if bytes.len() < 6 + n {
            return Err(ProtocolError::TruncatedFrame);
        }
        let dst_addr = copy_range(bytes, 4, 4 + n);
        let dst_port = port_from_bytes(bytes[4 + n], bytes[5 + n]);
        let data = copy_range(bytes, 6 + n, bytes.len());
        Ok(UdpRequest { reserved, frag, atyp, dst_addr, dst_port, data })
    }
}

fn udp_bytes(rsv: u16, frag: u8, atyp: AddressType, addr: &[u8], port: u16, data: &[u8]) -> (r: Vec<u8>)
    ensures
        r@ == udp_frame(rsv, frag, atyp.byte(), addr@, port, data@),
{
    let mut bytes: Vec<u8> = Vec::new();
    let (hi, lo) = port_to_bytes(rsv);
    bytes.push(hi);
    bytes.push(lo);
    bytes.push(frag);
    bytes.push(atyp.to_byte());
    append_address(&mut bytes, addr, port);
    append_bytes(&mut bytes, data);
    proof {
        assert(seq![hi, lo] + seq![frag, atyp.byte()] =~= seq![hi, lo, frag, atyp.byte()]);
    }
    bytes
}

/// A datagram sent back to the client through the relay.
#[derive(Debug)]
pub struct UdpReply {
    pub reserved: u16,
    pub frag: u8,
    pub atyp: AddressType,
    pub dst_addr: Vec<u8>,
    pub dst_port: u16,
    pub data: Vec<u8>,
}

impl UdpReply {
    pub fn new(atyp: AddressType, dst_addr: Vec<u8>, dst_port: u16, data: Vec<u8>) -> (r: UdpReply)
        ensures
            r.reserved == 0,
            r.frag == 0,
            r.atyp == atyp,
            r.dst_addr@ == dst_addr@,
            r.dst_port == dst_port,
            r.data@ == data@,
    {
        UdpReply { reserved: 0x0000, frag: 0x00, atyp, dst_addr, dst_port, data }
    }

    pub fn to_bytes(&self) -> (r: Vec<u8>)
        ensures
            r@ == udp_frame(
                self.reserved,
                self.frag,
                self.atyp.byte(),
                self.dst_addr@,
                self.dst_port,
                self.data@,
            ),
    {
        udp_bytes(self.reserved, self.frag, self.atyp, self.dst_addr.as_slice(), self.dst_port, self.data.as_slice())
    }
}

} // verus!
