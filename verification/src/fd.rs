//! Events of the descriptor probe: connects and writes.
//!
//! The probe watches `connect`, `send` and `write`. Each intercepted call
//! becomes one event, the event becomes one fixed-size record, and the
//! record is handed to the transport under the name of its channel.

use vstd::prelude::*;
use crate::extract::{
    connect_arguments, connect_arguments_of, descriptor_in, host_u16, host_u32, is_ipv4,
    lemma_octets_of_host, write_arguments, write_arguments_of, Registers, SocketAddress,
};
use crate::layout::{
    ConnectFields, FdWriteFields, CONNECT_CHANNEL, CONNECT_RECORD_SIZE, FD_WRITE_CHANNEL,
    FD_WRITE_RECORD_SIZE, TAG_V4,
};
use crate::text::{dotted_quad, octets, octets_of, push_dotted_quad};
use crate::transport::{inserted_into, Transport};

verus! {

/// An address of one of the supported families, in host byte order.
#[derive(Clone, Copy, Debug, PartialEq, Eq)]
pub enum IpAddress {
    V4(u32),
}

/// One observed connection attempt.
#[derive(Clone, Copy, Debug, PartialEq, Eq)]
pub struct SocketConnectEvent {
    pub fd: i32,
    pub port: u16,
    pub _padding: [u8; 2],
    pub address: IpAddress,
}

/// One observed write to a descriptor.
#[derive(Clone, Copy, Debug, PartialEq, Eq)]
pub struct FdWriteEvent {
    pub fd: i32,
    pub _padding: [u8; 4],
    pub bytes: u64,
}

impl IpAddress {
    /// The address as a number.
    pub open spec fn bits(self) -> u32 {
        match self {
            IpAddress::V4(address) => address,
        }
    }

    /// The address as text: for IPv4 its four octets in dotted-quad
    /// notation, the most significant first.
    pub open spec fn text(self) -> Seq<char> {
        dotted_quad(octets(self.bits()))
    }

    /// The octets of the address, the most significant first.
    pub fn octets(&self) -> (bytes: [u8; 4])
        ensures
            bytes@ == octets(self.bits()),
    {
        match self {
            IpAddress::V4(address) => octets_of(*address),
        }
    }

    /// Writes the address out as text.
    pub fn to_text(&self) -> (text: String)
        ensures
            text@ == self.text(),
    {
        let mut text = String::new();
        let bytes = self.octets();
        push_dotted_quad(&mut text, &bytes);
        assert(text@ =~= self.text());
        text
    }
}

impl SocketConnectEvent {
    /// An event with its padding zeroed.
    pub fn new(fd: i32, port: u16, address: IpAddress) -> (event: Self)
        ensures
            event == (SocketConnectEvent { fd, port, _padding: [0u8, 0u8], address }),
    {
        let event = SocketConnectEvent { fd, port, address, _padding: [0, 0] };
        assert(event._padding =~= [0u8, 0u8]) by {
            broadcast use vstd::array::group_array_axioms;

        }
        event
    }

    /// The fields of the event's record.
    pub open spec fn fields(self) -> ConnectFields {
        ConnectFields {
            fd: self.fd,
            port: self.port,
            padding: self._padding,
            tag: TAG_V4,
            address: self.address.bits(),
        }
    }

    /// The record that carries the event.
    pub open spec fn record(self) -> Seq<u8> {
        self.fields().record()
    }

    /// The event that `bytes` carry: none where they are fewer than a
    /// record or name an address family that is not known, else the one
    /// read from the first sixteen of them.
    pub open spec fn parse(bytes: Seq<u8>) -> Option<Self> {
        let fields = ConnectFields::parse(bytes);
        if bytes.len() < CONNECT_RECORD_SIZE || fields.tag != TAG_V4 {
            None
        } else {
            Some(
                SocketConnectEvent {
                    fd: fields.fd,
                    port: fields.port,
                    _padding: fields.padding,
                    address: IpAddress::V4(fields.address),
                },
            )
        }
    }

    /// The event that an intercepted connect call gives rise to, if any.
    pub open spec fn captured(regs: Registers, addr: SocketAddress) -> Option<Self> {
        match connect_arguments_of(regs, addr) {
            Some(args) => Some(
                SocketConnectEvent {
                    fd: args.fd,
                    port: args.port,
                    _padding: [0u8, 0u8],
                    address: IpAddress::V4(args.address),
                },
            ),
            None => None,
        }
    }

    /// Decoding what was encoded gives the event back, field for field.
    pub proof fn lemma_round_trip(self)
        ensures
            self.record().len() == CONNECT_RECORD_SIZE,
            Self::parse(self.record()) == Some(self),
    {
        self.fields().lemma_parse_record();
    }

    /// Of a connect call to an IPv4 address the observer decodes the
    /// descriptor of the call, the port in host order, and an address whose
    /// text is the dotted quad of the address bytes as the call gave them,
    /// in network order.
    pub proof fn lemma_reports_host_order(regs: Registers, addr: SocketAddress)
        requires
            is_ipv4(addr),
        ensures
            Self::captured(regs, addr) is Some,
            Self::parse(Self::captured(regs, addr)->0.record()) is Some,
            ({
                let decoded = Self::parse(Self::captured(regs, addr)->0.record())->0;
                &&& decoded.fd == descriptor_in(regs.parm1)
                &&& decoded.port == host_u16(addr.port->0@)
                &&& decoded.address == IpAddress::V4(host_u32(addr.address->0@))
                &&& decoded.address.text() == dotted_quad(addr.address->0@)
            }),
    {
        let event = Self::captured(regs, addr)->0;
        event.lemma_round_trip();
        lemma_octets_of_host(addr.address->0@);
    }

    /// An event that was decoded from a record encodes to that record.
    pub proof fn lemma_record_of_parsed(bytes: Seq<u8>)
        requires
            Self::parse(bytes) is Some,
        ensures
            Self::parse(bytes)->0.record() == bytes.subrange(0, CONNECT_RECORD_SIZE as int),
    {
        ConnectFields::lemma_record_parse(bytes);
    }

    /// Builds the event of an intercepted connect call. A call whose address
    /// is of another family than IPv4, or could not be read in full, gives
    /// rise to no event.
    pub fn capture(regs: &Registers, addr: &SocketAddress) -> (event: Option<Self>)
        ensures
            event == Self::captured(*regs, *addr),
            event is Some <==> is_ipv4(*addr),
    {
        match connect_arguments(regs, addr) {
            Some(args) => Some(Self::new(args.fd, args.port, IpAddress::V4(args.address))),
            None => None,
        }
    }

    /// Encodes the event as a record.
    pub fn encode(&self) -> (record: [u8; 16])
        ensures
            record@ == self.record(),
    {
        let address = match self.address {
            IpAddress::V4(address) => address,
        };
        let fields = ConnectFields {
            fd: self.fd,
            port: self.port,
            padding: self._padding,
            tag: TAG_V4,
            address,
        };
        fields.encode()
    }

    /// Decodes a record. Bytes beyond the record's size are not looked at.
    pub fn decode(bytes: &[u8]) -> (event: Option<Self>)
        ensures
            event == Self::parse(bytes@),
    {
        if bytes.len() < CONNECT_RECORD_SIZE {
            return None;
        }
        let fields = ConnectFields::decode(bytes);
        if fields.tag != TAG_V4 {
            return None;
        }
        Some(
            SocketConnectEvent {
                fd: fields.fd,
                port: fields.port,
                _padding: fields.padding,
                address: IpAddress::V4(fields.address),
            },
        )
    }
}

impl FdWriteEvent {
    /// An event with its padding zeroed.
    pub fn new(fd: i32, bytes: u64) -> (event: Self)
        ensures
            event == (FdWriteEvent { fd, _padding: [0u8, 0u8, 0u8, 0u8], bytes }),
    {
        let event = FdWriteEvent { fd, bytes, _padding: [0, 0, 0, 0] };
        assert(event._padding =~= [0u8, 0u8, 0u8, 0u8]) by {
            broadcast use vstd::array::group_array_axioms;

        }
        event
    }

    /// The fields of the event's record.
    pub open spec fn fields(self) -> FdWriteFields {
        FdWriteFields { fd: self.fd, padding: self._padding, bytes: self.bytes }
    }

    /// The record that carries the event.
    pub open spec fn record(self) -> Seq<u8> {
        self.fields().record()
    }

    /// The event that `bytes` carry: none where they are fewer than a
    /// record, else the one read from the first sixteen of them.
    pub open spec fn parse(bytes: Seq<u8>) -> Option<Self> {
        let fields = FdWriteFields::parse(bytes);
        if bytes.len() < FD_WRITE_RECORD_SIZE {
            None
        } else {
            Some(FdWriteEvent { fd: fields.fd, _padding: fields.padding, bytes: fields.bytes })
        }
    }

    /// The event that an intercepted write-like call gives rise to.
    pub open spec fn captured(regs: Registers) -> Self {
        let args = write_arguments_of(regs);
        FdWriteEvent { fd: args.fd, _padding: [0u8, 0u8, 0u8, 0u8], bytes: args.bytes }
    }

    /// Decoding what was encoded gives the event back, field for field.
    pub proof fn lemma_round_trip(self)
        ensures
            self.record().len() == FD_WRITE_RECORD_SIZE,
            Self::parse(self.record()) == Some(self),
    {
        self.fields().lemma_parse_record();
    }

    /// Of a write-like call the observer decodes the descriptor of the call
    /// and the byte count exactly as the call gave it.
    pub proof fn lemma_reports_count(regs: Registers)
        ensures
            Self::parse(Self::captured(regs).record()) is Some,
            Self::parse(Self::captured(regs).record())->0.fd == descriptor_in(regs.parm1),
            Self::parse(Self::captured(regs).record())->0.bytes == regs.parm3,
    {
        Self::captured(regs).lemma_round_trip();
    }

    /// An event that was decoded from a record encodes to that record.
    pub proof fn lemma_record_of_parsed(bytes: Seq<u8>)
        requires
            Self::parse(bytes) is Some,
        ensures
            Self::parse(bytes)->0.record() == bytes.subrange(0, FD_WRITE_RECORD_SIZE as int),
    {
        FdWriteFields::lemma_record_parse(bytes);
    }

    /// Builds the event of an intercepted write-like call.
    pub fn capture(regs: &Registers) -> (event: Self)
        ensures
            event == Self::captured(*regs),
    {
        let args = write_arguments(regs);
        Self::new(args.fd, args.bytes)
    }

    /// Encodes the event as a record.
    pub fn encode(&self) -> (record: [u8; 16])
        ensures
            record@ == self.record(),
    {
        let fields = FdWriteFields { fd: self.fd, padding: self._padding, bytes: self.bytes };
        fields.encode()
    }

    /// Decodes a record. Bytes beyond the record's size are not looked at.
    pub fn decode(bytes: &[u8]) -> (event: Option<Self>)
        ensures
            event == Self::parse(bytes@),
    {
        if bytes.len() < FD_WRITE_RECORD_SIZE {
            return None;
        }
        let fields = FdWriteFields::decode(bytes);
        Some(FdWriteEvent { fd: fields.fd, _padding: fields.padding, bytes: fields.bytes })
    }
}

/// Encoder of connect calls: builds the event of a call to an IPv4 address
/// and hands its record to the connect channel. A call with any other
/// address leaves the transport untouched and yields `None`.
pub fn process_connect_ipv4(regs: &Registers, addr: &SocketAddress, transport: &mut Transport) -> (sent:
    Option<()>)
    requires
        old(transport).wf(),
    ensures
        final(transport).wf(),
        sent is Some <==> is_ipv4(*addr),
        !is_ipv4(*addr) ==> final(transport)@ == old(transport)@,
        match SocketConnectEvent::captured(*regs, *addr) {
            Some(event) => final(transport)@ == inserted_into(
                old(transport)@,
                CONNECT_CHANNEL@,
                event.record(),
            ),
            None => final(transport)@ == old(transport)@,
        },
{
    let event = match SocketConnectEvent::capture(regs, addr) {
        Some(event) => event,
        None => {
            return None;
        },
    };
    let record = event.encode();
    transport.insert(CONNECT_CHANNEL, record.as_slice());
    Some(())
}

/// Encoder of write-like calls: builds the event of the call and hands its
/// record to the descriptor-write channel.
pub fn write_handler(regs: &Registers, transport: &mut Transport)
    requires
        old(transport).wf(),
    ensures
        final(transport).wf(),
        final(transport)@ == inserted_into(
            old(transport)@,
            FD_WRITE_CHANNEL@,
            FdWriteEvent::captured(*regs).record(),
        ),
{
    let event = FdWriteEvent::capture(regs);
    let record = event.encode();
    transport.insert(FD_WRITE_CHANNEL, record.as_slice());
}

} // verus!
