//! Structured network addresses.
//!
//! An address is a sequence of protocol segments: a network layer, a
//! transport, and, for authenticated dialling, the expected public key and
//! the version of the handshake.

use vstd::prelude::*;
use crate::identity::PublicKey;

verus! {

/// Version of the handshake that this node speaks.
pub const HANDSHAKE_VERSION: u8 = 0;

/// One segment of an address.
#[derive(Debug, PartialEq, Eq)]
pub enum Protocol {
    Ip4([u8; 4]),
    Ip6([u8; 16]),
    /// A host name that resolves to an address of either family.
    Dns(String),
    /// A host name that resolves to an IPv4 address.
    Dns4(String),
    /// A host name that resolves to an IPv6 address.
    Dns6(String),
    Tcp(u16),
    Memory(u16),
    NoiseIk(PublicKey),
    Handshake(u8),
}

/// The transport that a listen address selects.
#[derive(Clone, Copy, Debug, PartialEq, Eq, Structural)]
pub enum TransportKind {
    Tcp,
    Memory,
}

/// A multi-protocol address.
#[derive(Debug, PartialEq, Eq)]
pub struct NetworkAddress {
    pub protocols: Vec<Protocol>,
}

/// The transport that a sequence of segments selects when it is listened on:
/// TCP over IPv4 or IPv6, or the in-memory transport. Any other shape selects
/// none, a host name in place of an address among them.
pub open spec fn transport_of(protocols: Seq<Protocol>) -> Option<TransportKind> {
    if protocols.len() == 2 && (protocols[0] is Ip4 || protocols[0] is Ip6) && protocols[1] is Tcp {
        Some(TransportKind::Tcp)
    } else if protocols.len() == 1 && protocols[0] is Memory {
        Some(TransportKind::Memory)
    } else {
        None
    }
}

/// An address with the two segments of authenticated dialling appended.
pub open spec fn with_prod_protos(
    protocols: Seq<Protocol>,
    public_key: PublicKey,
    handshake_version: u8,
) -> Seq<Protocol> {
    protocols.push(Protocol::NoiseIk(public_key)).push(Protocol::Handshake(handshake_version))
}

/// The text of a digit below ten.
pub open spec fn decimal_digit(digit: nat) -> Seq<char> {
    if digit == 0 {
        "0"@
    } else if digit == 1 {
        "1"@
    } else if digit == 2 {
        "2"@
    } else if digit == 3 {
        "3"@
    } else if digit == 4 {
        "4"@
    } else if digit == 5 {
        "5"@
    } else if digit == 6 {
        "6"@
    } else if digit == 7 {
        "7"@
    } else if digit == 8 {
        "8"@
    } else {
        "9"@
    }
}

/// The text of a digit below sixteen, in lower case.
pub open spec fn hex_digit(digit: nat) -> Seq<char> {
    if digit < 10 {
        decimal_digit(digit)
    } else if digit == 10 {
        "a"@
    } else if digit == 11 {
        "b"@
    } else if digit == 12 {
        "c"@
    } else if digit == 13 {
        "d"@
    } else if digit == 14 {
        "e"@
    } else {
        "f"@
    }
}

/// A number in decimal, without leading zeros.
pub open spec fn decimal_text(number: nat) -> Seq<char>
    decreases number,
{
    if number < 10 {
        decimal_digit(number)
    } else {
        decimal_text(number / 10) + decimal_digit(number % 10)
    }
}

/// A number in lower-case hexadecimal, without leading zeros.
pub open spec fn hex_text(number: nat) -> Seq<char>
    decreases number,
{
    if number < 16 {
        hex_digit(number)
    } else {
        hex_text(number / 16) + hex_digit(number % 16)
    }
}

/// Bytes in lower-case hexadecimal, two digits each.
pub open spec fn hex_bytes_text(bytes: Seq<u8>) -> Seq<char>
    decreases bytes.len(),
{
    if bytes.len() == 0 {
        Seq::empty()
    } else {
        hex_bytes_text(bytes.drop_last()) + hex_digit(bytes.last() as nat / 16) + hex_digit(
            bytes.last() as nat % 16,
        )
    }
}

/// Four bytes in decimal, with dots between them.
pub open spec fn dotted_text(a: u8, b: u8, c: u8, d: u8) -> Seq<char> {
    decimal_text(a as nat) + "."@ + decimal_text(b as nat) + "."@ + decimal_text(c as nat) + "."@
        + decimal_text(d as nat)
}

/// The eight groups of sixteen bits that the bytes of an IPv6 address make.
pub open spec fn ip6_groups(address: Seq<u8>) -> Seq<u16> {
    Seq::new(8, |i: int| (address[2 * i] as u16 * 256 + address[2 * i + 1]) as u16)
}

/// A run of zero groups: where it starts and how many groups it holds.
pub struct ZeroRun {
    pub start: int,
    pub len: int,
}

/// The run of zero groups that ends with the group before `count`; it is
/// empty where that group is not zero.
pub open spec fn current_zero_run(groups: Seq<u16>, count: nat) -> ZeroRun
    decreases count,
{
    if count == 0 || groups[count - 1] != 0 {
        ZeroRun { start: 0, len: 0 }
    } else {
        let before = current_zero_run(groups, (count - 1) as nat);
        if before.len == 0 {
            ZeroRun { start: count - 1, len: 1 }
        } else {
            ZeroRun { start: before.start, len: before.len + 1 }
        }
    }
}

/// The longest run of zero groups among the first `count` groups, and of
/// several of that length the first.
pub open spec fn longest_zero_run(groups: Seq<u16>, count: nat) -> ZeroRun
    decreases count,
{
    if count == 0 {
        ZeroRun { start: 0, len: 0 }
    } else {
        let before = longest_zero_run(groups, (count - 1) as nat);
        let current = current_zero_run(groups, count);
        if current.len > before.len {
            current
        } else {
            before
        }
    }
}

/// The groups from `from` up to `to` in hexadecimal, with colons between
/// them.
pub open spec fn groups_text(groups: Seq<u16>, from: int, to: int) -> Seq<char>
    decreases to - from,
{
    if to <= from {
        Seq::empty()
    } else if to == from + 1 {
        hex_text(groups[from] as nat)
    } else {
        groups_text(groups, from, to - 1) + ":"@ + hex_text(groups[to - 1] as nat)
    }
}

/// Whether an IPv6 address stands for an IPv4 address: five zero groups and
/// one of all ones before the last two.
pub open spec fn is_ip4_mapped(groups: Seq<u16>) -> bool {
    groups[0] == 0 && groups[1] == 0 && groups[2] == 0 && groups[3] == 0 && groups[4] == 0
        && groups[5] == 0xffff
}

/// An IPv6 address as text. An address that stands for an IPv4 address is
/// written as `::ffff:` and the four bytes, dotted. Otherwise the groups are
/// written in hexadecimal with colons between them, and the longest run of
/// two or more zero groups, the first of them where several are as long, is
/// shortened to `::`.
pub open spec fn ip6_text(address: Seq<u8>) -> Seq<char> {
    let groups = ip6_groups(address);
    let zeros = longest_zero_run(groups, 8);
    if is_ip4_mapped(groups) {
        "::ffff:"@ + dotted_text(address[12], address[13], address[14], address[15])
    } else if zeros.len > 1 {
        groups_text(groups, 0, zeros.start) + "::"@ + groups_text(
            groups,
            zeros.start + zeros.len,
            8,
        )
    } else {
        groups_text(groups, 0, 8)
    }
}

/// The text of one segment: a slash, the segment's name, a slash, and its
/// value.
pub open spec fn protocol_text(protocol: Protocol) -> Seq<char> {
    match protocol {
        Protocol::Ip4(address) => "/ip4/"@ + dotted_text(
            address[0],
            address[1],
            address[2],
            address[3],
        ),
        Protocol::Ip6(address) => "/ip6/"@ + ip6_text(address@),
        Protocol::Dns(name) => "/dns/"@ + name@,
        Protocol::Dns4(name) => "/dns4/"@ + name@,
        Protocol::Dns6(name) => "/dns6/"@ + name@,
        Protocol::Tcp(port) => "/tcp/"@ + decimal_text(port as nat),
        Protocol::Memory(port) => "/memory/"@ + decimal_text(port as nat),
        Protocol::NoiseIk(key) => "/ln-noise-ik/"@ + hex_bytes_text(key.bytes@),
        Protocol::Handshake(version) => "/ln-handshake/"@ + decimal_text(version as nat),
    }
}

/// The text of an address: the texts of its segments, one after the other.
pub open spec fn address_text(protocols: Seq<Protocol>) -> Seq<char>
    decreases protocols.len(),
{
    if protocols.len() == 0 {
        Seq::empty()
    } else {
        address_text(protocols.drop_last()) + protocol_text(protocols.last())
    }
}

/// The text of a digit below sixteen.
fn hex_digit_str(digit: u8) -> (text: &'static str)
    requires
        digit < 16,
    ensures
        text@ == hex_digit(digit as nat),
        digit < 10 ==> text@ == decimal_digit(digit as nat),
{
    if digit == 0 {
        "0"
    } else if digit == 1 {
        "1"
    } else if digit == 2 {
        "2"
    } else if digit == 3 {
        "3"
    } else if digit == 4 {
        "4"
    } else if digit == 5 {
        "5"
    } else if digit == 6 {
        "6"
    } else if digit == 7 {
        "7"
    } else if digit == 8 {
        "8"
    } else if digit == 9 {
        "9"
    } else if digit == 10 {
        "a"
    } else if digit == 11 {
        "b"
    } else if digit == 12 {
        "c"
    } else if digit == 13 {
        "d"
    } else if digit == 14 {
        "e"
    } else {
        "f"
    }
}

/// Appends a number in decimal.
fn append_decimal(text: &mut String, number: u16)
    ensures
        final(text)@ == old(text)@ + decimal_text(number as nat),
    decreases number,
{
    if number >= 10 {
        append_decimal(text, number / 10);
    }
    text.append(hex_digit_str((number % 10) as u8));
}

/// Appends a number in hexadecimal.
fn append_hex(text: &mut String, number: u16)
    ensures
        final(text)@ == old(text)@ + hex_text(number as nat),
    decreases number,
{
    if number >= 16 {
        append_hex(text, number / 16);
    }
    text.append(hex_digit_str((number % 16) as u8));
}

/// Appends four bytes in decimal, with dots between them.
fn append_dotted(text: &mut String, a: u8, b: u8, c: u8, d: u8)
    ensures
        final(text)@ == old(text)@ + dotted_text(a, b, c, d),
{
    append_decimal(text, a as u16);
    text.append(".");
    append_decimal(text, b as u16);
    text.append(".");
    append_decimal(text, c as u16);
    text.append(".");
    append_decimal(text, d as u16);
}

/// Appends the groups from `from` up to `to` in hexadecimal, with colons
/// between them.
fn append_groups(text: &mut String, groups: &Vec<u16>, from: usize, to: usize)
    requires
        from <= to <= groups.len(),
    ensures
        final(text)@ == old(text)@ + groups_text(groups@, from as int, to as int),
{
    let mut i: usize = from;
    proof {
        assert(text@ =~= old(text)@ + groups_text(groups@, from as int, i as int));
    }
    while i < to
        invariant
            from <= i <= to <= groups.len(),
            text@ == old(text)@ + groups_text(groups@, from as int, i as int),
        decreases to - i,
    {
        let ghost before = text@;
        if i > from {
            text.append(":");
        }
        append_hex(text, groups[i]);
        proof {
            let written = groups_text(groups@, from as int, i as int);
            let group = hex_text(groups@[i as int] as nat);
            if i > from {
                assert(text@ =~= old(text)@ + (written + ":"@ + group));
            } else {
                assert(text@ =~= old(text)@ + group);
            }
        }
        i = i + 1;
    }
}

/// Appends an IPv6 address.
fn append_ip6(text: &mut String, address: &[u8; 16])
    ensures
        final(text)@ == old(text)@ + ip6_text(address@),
{
    let mut groups: Vec<u16> = Vec::new();
    let mut i: usize = 0;
    while i < 8
        invariant
            i <= 8,
            groups@ == ip6_groups(address@).take(i as int),
        decreases 8 - i,
    {
        let high = address[2 * i] as u16;
        let low = address[2 * i + 1] as u16;
        groups.push(high * 256 + low);
        proof {
            assert(groups@ =~= ip6_groups(address@).take(i as int + 1));
        }
        i = i + 1;
    }
    proof {
        assert(groups@ =~= ip6_groups(address@));
    }
    if groups[0] == 0 && groups[1] == 0 && groups[2] == 0 && groups[3] == 0 && groups[4] == 0
        && groups[5] == 0xffff {
        text.append("::ffff:");
        append_dotted(text, address[12], address[13], address[14], address[15]);
        return ;
    }
    let mut longest_start: usize = 0;
    let mut longest_len: usize = 0;
    let mut current_start: usize = 0;
    let mut current_len: usize = 0;
    let mut k: usize = 0;
    while k < 8
        invariant
            k <= 8,
            groups@.len() == 8,
            current_len <= k,
            longest_len <= k,
            current_zero_run(groups@, k as nat) == (ZeroRun {
                start: current_start as int,
                len: current_len as int,
            }),
            longest_zero_run(groups@, k as nat) == (ZeroRun {
                start: longest_start as int,
                len: longest_len as int,
            }),
            longest_start + longest_len <= k,
            current_len > 0 ==> current_start + current_len == k,
        decreases 8 - k,
    {
        if groups[k] == 0 {
            if current_len == 0 {
                current_start = k;
            }
            current_len = current_len + 1;
            if current_len > longest_len {
                longest_start = current_start;
                longest_len = current_len;
            }
        } else {
            current_start = 0;
            current_len = 0;
        }
        k = k + 1;
    }
    if longest_len > 1 {
        append_groups(text, &groups, 0, longest_start);
        text.append("::");
        append_groups(text, &groups, longest_start + longest_len, 8);
    } else {
        append_groups(text, &groups, 0, 8);
    }
}

/// Appends the text of one segment.
fn append_protocol(text: &mut String, protocol: &Protocol)
    ensures
        final(text)@ == old(text)@ + protocol_text(*protocol),
{
    let ghost before = text@;
    match protocol {
        Protocol::Ip4(address) => {
            text.append("/ip4/");
            append_dotted(text, address[0], address[1], address[2], address[3]);
        },
        Protocol::Ip6(address) => {
            text.append("/ip6/");
            append_ip6(text, address);
        },
        Protocol::Dns(name) => {
            text.append("/dns/");
            text.append(name.as_str());
        },
        Protocol::Dns4(name) => {
            text.append("/dns4/");
            text.append(name.as_str());
        },
        Protocol::Dns6(name) => {
            text.append("/dns6/");
            text.append(name.as_str());
        },
        Protocol::Tcp(port) => {
            text.append("/tcp/");
            append_decimal(text, *port);
        },
        Protocol::Memory(port) => {
            text.append("/memory/");
            append_decimal(text, *port);
        },
        Protocol::NoiseIk(key) => {
            text.append("/ln-noise-ik/");
            let ghost start = text@;
            let mut i: usize = 0;
            while i < 32
                invariant
                    i <= 32,
                    text@ == start + hex_bytes_text(key.bytes@.take(i as int)),
                decreases 32 - i,
            {
                let byte = key.bytes[i];
                proof {
                    assert(key.bytes@.take(i as int + 1).drop_last() =~= key.bytes@.take(
                        i as int,
                    ));
                }
                text.append(hex_digit_str(byte / 16));
                text.append(hex_digit_str(byte % 16));
                i = i + 1;
            }
            proof {
                assert(key.bytes@.take(32) =~= key.bytes@);
            }
        },
        Protocol::Handshake(version) => {
            text.append("/ln-handshake/");
            append_decimal(text, *version as u16);
        },
    }
}

impl View for NetworkAddress {
    type V = Seq<Protocol>;

    open spec fn view(&self) -> Seq<Protocol> {
        self.protocols@
    }
}

impl Clone for Protocol {
    fn clone(&self) -> (copy: Protocol)
        ensures
            copy == *self,
    {
        match self {
            Protocol::Ip4(address) => Protocol::Ip4(*address),
            Protocol::Ip6(address) => Protocol::Ip6(*address),
            Protocol::Dns(name) => Protocol::Dns(name.clone()),
            Protocol::Dns4(name) => Protocol::Dns4(name.clone()),
            Protocol::Dns6(name) => Protocol::Dns6(name.clone()),
            Protocol::Tcp(port) => Protocol::Tcp(*port),
            Protocol::Memory(port) => Protocol::Memory(*port),
            Protocol::NoiseIk(key) => Protocol::NoiseIk(*key),
            Protocol::Handshake(version) => Protocol::Handshake(*version),
        }
    }
}

impl Clone for NetworkAddress {
    fn clone(&self) -> (copy: NetworkAddress)
        ensures
            copy@ == self@,
    {
        let mut protocols: Vec<Protocol> = Vec::new();
        let mut i: usize = 0;
        while i < self.protocols.len()
            invariant
                i <= self.protocols.len(),
                protocols@ == self.protocols@.take(i as int),
            decreases self.protocols.len() - i,
        {
            protocols.push(self.protocols[i].clone());
            assert(self.protocols@.take(i as int + 1) =~= self.protocols@.take(i as int).push(
                self.protocols@[i as int],
            ));
            i = i + 1;
        }
        assert(self.protocols@.take(self.protocols.len() as int) =~= self.protocols@);
        NetworkAddress { protocols }
    }
}

impl NetworkAddress {
    pub fn new(protocols: Vec<Protocol>) -> (address: NetworkAddress)
        ensures
            address@ == protocols@,
    {
        NetworkAddress { protocols }
    }

    /// The transport to listen with, if the address names a supported one.
    pub fn transport(&self) -> (kind: Option<TransportKind>)
        ensures
            kind == transport_of(self@),
    {
        if self.protocols.len() == 2 {
            let network_layer = match &self.protocols[0] {
                Protocol::Ip4(_) => true,
                Protocol::Ip6(_) => true,
                _ => false,
            };
            let tcp = match &self.protocols[1] {
                Protocol::Tcp(_) => true,
                _ => false,
            };
            if network_layer && tcp {
                Some(TransportKind::Tcp)
            } else {
                None
            }
        } else if self.protocols.len() == 1 {
            match &self.protocols[0] {
                Protocol::Memory(_) => Some(TransportKind::Memory),
                _ => None,
            }
        } else {
            None
        }
    }

    /// The address as text: for each segment a slash, its name, a slash
    /// and its value, as in `/ip4/127.0.0.1/tcp/6180`.
    pub fn to_text(&self) -> (text: String)
        ensures
            text@ == address_text(self@),
    {
        let mut text = String::new();
        let mut i: usize = 0;
        while i < self.protocols.len()
            invariant
                i <= self.protocols.len(),
                text@ == address_text(self.protocols@.take(i as int)),
            decreases self.protocols.len() - i,
        {
            proof {
                assert(self.protocols@.take(i as int + 1).drop_last() =~= self.protocols@.take(
                    i as int,
                ));
            }
            append_protocol(&mut text, &self.protocols[i]);
            i = i + 1;
        }
        proof {
            assert(self.protocols@.take(self.protocols.len() as int) =~= self.protocols@);
        }
        text
    }

    /// Appends the expected public key and the handshake version.
    pub fn append_prod_protos(self, public_key: PublicKey, handshake_version: u8) -> (address:
        NetworkAddress)
        ensures
            address@ == with_prod_protos(self@, public_key, handshake_version),
    {
        let mut protocols = self.protocols;
        protocols.push(Protocol::NoiseIk(public_key));
        protocols.push(Protocol::Handshake(handshake_version));
        NetworkAddress { protocols }
    }
}

} // verus!
