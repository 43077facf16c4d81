//! Reading the arguments of an intercepted call.
//!
//! The traced context hands over what it could read: the argument registers
//! of the call and, for a connect, the fields of the socket address that the
//! second argument points to. This module turns them into the typed values
//! that an event is made of. Port and address stand in the socket address in
//! network byte order, first byte most significant; they leave here as
//! numbers.

use vstd::prelude::*;
use crate::text::octets;
use crate::wire::from_twos_complement;

verus! {

/// Address family of IPv4 socket addresses.
pub const AF_INET: u16 = 2;

/// The argument registers of an intercepted call, in the order of the
/// callee's parameters.
#[derive(Clone, Copy, Debug, PartialEq, Eq)]
pub struct Registers {
    pub parm1: u64,
    pub parm2: u64,
    pub parm3: u64,
}

/// What could be read of the socket address that a connect call was given.
/// A field that could not be read is `None`. Port and address hold the bytes
/// as they stand in the structure, in network order.
#[derive(Clone, Copy, Debug, PartialEq, Eq)]
pub struct SocketAddress {
    pub family: Option<u16>,
    pub port: Option<[u8; 2]>,
    pub address: Option<[u8; 4]>,
}

/// The typed arguments of a connect call to an IPv4 address.
#[derive(Clone, Copy, Debug, PartialEq, Eq)]
pub struct ConnectArguments {
    pub fd: i32,
    pub port: u16,
    pub address: u32,
}

/// The typed arguments of a write-like call.
#[derive(Clone, Copy, Debug, PartialEq, Eq)]
pub struct WriteArguments {
    pub fd: i32,
    pub bytes: u64,
}

/// The descriptor that a register holds: its low 32 bits, read as signed.
pub open spec fn descriptor_in(register: u64) -> i32 {
    from_twos_complement((register % 0x1_0000_0000) as u32)
}

/// The number whose two bytes, most significant first, are `bytes`.
pub open spec fn host_u16(bytes: Seq<u8>) -> u16
    recommends
        bytes.len() == 2,
{
    (0x100 * (bytes[0] as int) + bytes[1] as int) as u16
}

/// The number whose four bytes, most significant first, are `bytes`.
pub open spec fn host_u32(bytes: Seq<u8>) -> u32
    recommends
        bytes.len() == 4,
{
    (0x100_0000 * (bytes[0] as int) + 0x1_0000 * (bytes[1] as int) + 0x100 * (bytes[2] as int)
        + bytes[3] as int) as u32
}

/// Whether a socket address was read in full and is an IPv4 one.
pub open spec fn is_ipv4(addr: SocketAddress) -> bool {
    addr.family == Some(AF_INET) && addr.port is Some && addr.address is Some
}

/// What a connect call yields: nothing unless the address is a fully read
/// IPv4 one, else the descriptor from the first register and port and
/// address in host order.
pub open spec fn connect_arguments_of(regs: Registers, addr: SocketAddress) -> Option<
    ConnectArguments,
> {
    if is_ipv4(addr) {
        Some(
            ConnectArguments {
                fd: descriptor_in(regs.parm1),
                port: host_u16(addr.port->0@),
                address: host_u32(addr.address->0@),
            },
        )
    } else {
        None
    }
}

/// What a write-like call yields: the descriptor from the first register and
/// the byte count from the third, as it is.
pub open spec fn write_arguments_of(regs: Registers) -> WriteArguments {
    WriteArguments { fd: descriptor_in(regs.parm1), bytes: regs.parm3 }
}

/// The octets of an address in host order, the most significant first, are
/// the bytes that stood for it in network order.
pub proof fn lemma_octets_of_host(bytes: Seq<u8>)
    requires
        bytes.len() == 4,
    ensures
        octets(host_u32(bytes)) == bytes,
{
    let b0 = bytes[0] as u32;
    let b1 = bytes[1] as u32;
    let b2 = bytes[2] as u32;
    let b3 = bytes[3] as u32;
    let host = host_u32(bytes);
    assert(host == 0x100_0000 * b0 + 0x1_0000 * b1 + 0x100 * b2 + b3);
    assert({
        let host = (0x100_0000 * b0 + 0x1_0000 * b1 + 0x100 * b2 + b3) as u32;
        &&& host / 0x100_0000 == b0
        &&& (host / 0x1_0000) % 256 == b1
        &&& (host / 0x100) % 256 == b2
        &&& host % 256 == b3
    }) by (bit_vector)
        requires
            b0 < 256,
            b1 < 256,
            b2 < 256,
            b3 < 256,
    ;
    assert(octets(host) =~= bytes);
}

/// Reads a register as a descriptor.
pub fn descriptor(register: u64) -> (fd: i32)
    ensures
        fd == descriptor_in(register),
{
    assert(register as i32 == from_twos_complement((register % 0x1_0000_0000) as u32))
        by (bit_vector);
    register as i32
}

/// Converts a 16-bit field from network to host order.
pub fn port_to_host(bytes: &[u8; 2]) -> (port: u16)
    ensures
        port == host_u16(bytes@),
{
    0x100 * (bytes[0] as u16) + bytes[1] as u16
}

/// Converts a 32-bit field from network to host order.
pub fn address_to_host(bytes: &[u8; 4]) -> (address: u32)
    ensures
        address == host_u32(bytes@),
{
    0x100_0000 * (bytes[0] as u32) + 0x1_0000 * (bytes[1] as u32) + 0x100 * (bytes[2] as u32)
        + bytes[3] as u32
}

/// Extracts the arguments of a connect call. An address of another family,
/// or one with a field that could not be read, yields nothing.
pub fn connect_arguments(regs: &Registers, addr: &SocketAddress) -> (args: Option<
    ConnectArguments,
>)
    ensures
        args == connect_arguments_of(*regs, *addr),
        args is Some <==> is_ipv4(*addr),
{
    match addr.family {
        Some(family) => {
            if family != AF_INET {
                return None;
            }
        },
        None => {
            return None;
        },
    }
    let port = match &addr.port {
        Some(bytes) => port_to_host(bytes),
        None => {
            return None;
        },
    };
    let address = match &addr.address {
        Some(bytes) => address_to_host(bytes),
        None => {
            return None;
        },
    };
    Some(ConnectArguments { fd: descriptor(regs.parm1), port, address })
}

/// Extracts the arguments of a write-like call.
pub fn write_arguments(regs: &Registers) -> (args: WriteArguments)
    ensures
        args == write_arguments_of(*regs),
{
    WriteArguments { fd: descriptor(regs.parm1), bytes: regs.parm3 }
}

} // verus!
