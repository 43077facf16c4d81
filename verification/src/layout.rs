//! The two record shapes, field by field.
//!
//! A record is the fixed-size byte form in which an event leaves the traced
//! context. Offsets and sizes are constants, padding is written out as
//! bytes of its own, and nothing depends on how a compiler would lay a
//! struct out. Each shape travels on the channel of one name.
//!
//! | channel        | offset | size | field                     |
//! |----------------|--------|------|---------------------------|
//! | connect_event  | 0      | 4    | descriptor, signed        |
//! |                | 4      | 2    | port                      |
//! |                | 6      | 2    | padding                   |
//! |                | 8      | 4    | tag of the address family |
//! |                | 12     | 4    | address                   |
//! | fd_write_event | 0      | 4    | descriptor, signed        |
//! |                | 4      | 4    | padding                   |
//! |                | 8      | 8    | byte count                |

use vstd::prelude::*;
use crate::wire::{
    get_i32, get_u16, get_u32, get_u64, i32_bytes, i32_value, lemma_i32_bytes_of_value,
    lemma_i32_value_of_bytes, lemma_u16_bytes_of_value, lemma_u16_value_of_bytes,
    lemma_u32_bytes_of_value, lemma_u32_value_of_bytes, lemma_u64_bytes_of_value,
    lemma_u64_value_of_bytes, put_i32, put_u16, put_u32, put_u64, u16_bytes, u16_value, u32_bytes,
    u32_value, u64_bytes, u64_value,
};

verus! {

/// Number of bytes in a connect record.
pub const CONNECT_RECORD_SIZE: usize = 16;

/// Number of bytes in a descriptor-write record.
pub const FD_WRITE_RECORD_SIZE: usize = 16;

/// Name of the channel that carries connect records.
pub const CONNECT_CHANNEL: &'static str = "connect_event";

/// Name of the channel that carries descriptor-write records.
pub const FD_WRITE_CHANNEL: &'static str = "fd_write_event";

/// Tag under which an IPv4 address travels.
pub const TAG_V4: u32 = 0;

/// The fields of a connect record, as they stand in its bytes.
#[derive(Clone, Copy, Debug)]
pub struct ConnectFields {
    pub fd: i32,
    pub port: u16,
    pub padding: [u8; 2],
    pub tag: u32,
    pub address: u32,
}

/// The fields of a descriptor-write record, as they stand in its bytes.
#[derive(Clone, Copy, Debug)]
pub struct FdWriteFields {
    pub fd: i32,
    pub padding: [u8; 4],
    pub bytes: u64,
}

impl ConnectFields {
    /// The sixteen bytes that carry these fields.
    pub open spec fn record(self) -> Seq<u8> {
        i32_bytes(self.fd) + u16_bytes(self.port) + self.padding@ + u32_bytes(self.tag)
            + u32_bytes(self.address)
    }

    /// The fields that the first sixteen bytes of `bytes` carry.
    pub open spec fn parse(bytes: Seq<u8>) -> Self
        recommends
            bytes.len() >= CONNECT_RECORD_SIZE,
    {
        ConnectFields {
            fd: i32_value(bytes.subrange(0, 4)),
            port: u16_value(bytes.subrange(4, 6)),
            padding: [bytes[6], bytes[7]],
            tag: u32_value(bytes.subrange(8, 12)),
            address: u32_value(bytes.subrange(12, 16)),
        }
    }

    /// Parsing the record of some fields gives those fields back.
    pub proof fn lemma_parse_record(self)
        ensures
            self.record().len() == CONNECT_RECORD_SIZE,
            Self::parse(self.record()) == self,
    {
        broadcast use vstd::array::group_array_axioms;

        let record = self.record();
        lemma_i32_value_of_bytes(self.fd);
        lemma_u16_value_of_bytes(self.port);
        lemma_u32_value_of_bytes(self.tag);
        lemma_u32_value_of_bytes(self.address);
        assert(record.subrange(0, 4) =~= i32_bytes(self.fd));
        assert(record.subrange(4, 6) =~= u16_bytes(self.port));
        assert(record.subrange(8, 12) =~= u32_bytes(self.tag));
        assert(record.subrange(12, 16) =~= u32_bytes(self.address));
        assert(Self::parse(record).padding =~= self.padding);
    }

    /// Writing out the fields parsed from sixteen bytes gives those bytes back.
    pub proof fn lemma_record_parse(bytes: Seq<u8>)
        requires
            bytes.len() >= CONNECT_RECORD_SIZE,
        ensures
            Self::parse(bytes).record() == bytes.subrange(0, CONNECT_RECORD_SIZE as int),
    {
        broadcast use vstd::array::group_array_axioms;

        let fields = Self::parse(bytes);
        lemma_i32_bytes_of_value(bytes.subrange(0, 4));
        lemma_u16_bytes_of_value(bytes.subrange(4, 6));
        lemma_u32_bytes_of_value(bytes.subrange(8, 12));
        lemma_u32_bytes_of_value(bytes.subrange(12, 16));
        assert(fields.padding@ =~= bytes.subrange(6, 8));
        assert(fields.record() =~= bytes.subrange(0, 16));
    }

    /// Lays the fields out as a record.
    pub fn encode(&self) -> (record: [u8; 16])
        ensures
            record@ == self.record(),
    {
        let fd = put_i32(self.fd);
        let port = put_u16(self.port);
        let tag = put_u32(self.tag);
        let address = put_u32(self.address);
        let record: [u8; 16] = [
            fd[0],
            fd[1],
            fd[2],
            fd[3],
            port[0],
            port[1],
            self.padding[0],
            self.padding[1],
            tag[0],
            tag[1],
            tag[2],
            tag[3],
            address[0],
            address[1],
            address[2],
            address[3],
        ];
        assert(record@ =~= self.record());
        record
    }

    /// Reads the fields from the first sixteen bytes of `bytes`.
    pub fn decode(bytes: &[u8]) -> (fields: Self)
        requires
            bytes@.len() >= CONNECT_RECORD_SIZE,
        ensures
            fields == Self::parse(bytes@),
    {
        broadcast use vstd::array::group_array_axioms;

        let fields = ConnectFields {
            fd: get_i32(bytes, 0),
            port: get_u16(bytes, 4),
            padding: [bytes[6], bytes[7]],
            tag: get_u32(bytes, 8),
            address: get_u32(bytes, 12),
        };
        assert(fields.padding =~= Self::parse(bytes@).padding);
        fields
    }
}

impl FdWriteFields {
    /// The sixteen bytes that carry these fields.
    pub open spec fn record(self) -> Seq<u8> {
        i32_bytes(self.fd) + self.padding@ + u64_bytes(self.bytes)
    }

    /// The fields that the first sixteen bytes of `bytes` carry.
    pub open spec fn parse(bytes: Seq<u8>) -> Self
        recommends
            bytes.len() >= FD_WRITE_RECORD_SIZE,
    {
        FdWriteFields {
            fd: i32_value(bytes.subrange(0, 4)),
            padding: [bytes[4], bytes[5], bytes[6], bytes[7]],
            bytes: u64_value(bytes.subrange(8, 16)),
        }
    }

    /// Parsing the record of some fields gives those fields back.
    pub proof fn lemma_parse_record(self)
        ensures
            self.record().len() == FD_WRITE_RECORD_SIZE,
            Self::parse(self.record()) == self,
    {
        broadcast use vstd::array::group_array_axioms;

        let record = self.record();
        lemma_i32_value_of_bytes(self.fd);
        lemma_u64_value_of_bytes(self.bytes);
        assert(record.subrange(0, 4) =~= i32_bytes(self.fd));
        assert(record.subrange(8, 16) =~= u64_bytes(self.bytes));
        assert(Self::parse(record).padding =~= self.padding);
    }

    /// Writing out the fields parsed from sixteen bytes gives those bytes back.
    pub proof fn lemma_record_parse(bytes: Seq<u8>)
        requires
            bytes.len() >= FD_WRITE_RECORD_SIZE,
        ensures
            Self::parse(bytes).record() == bytes.subrange(0, FD_WRITE_RECORD_SIZE as int),
    {
        broadcast use vstd::array::group_array_axioms;

        let fields = Self::parse(bytes);
        lemma_i32_bytes_of_value(bytes.subrange(0, 4));
        lemma_u64_bytes_of_value(bytes.subrange(8, 16));
        assert(fields.padding@ =~= bytes.subrange(4, 8));
        assert(fields.record() =~= bytes.subrange(0, 16));
    }

    /// Lays the fields out as a record.
    pub fn encode(&self) -> (record: [u8; 16])
        ensures
            record@ == self.record(),
    {
        let fd = put_i32(self.fd);
        let count = put_u64(self.bytes);
        let record: [u8; 16] = [
            fd[0],
            fd[1],
            fd[2],
            fd[3],
            self.padding[0],
            self.padding[1],
            self.padding[2],
            self.padding[3],
            count[0],
            count[1],
            count[2],
            count[3],
            count[4],
            count[5],
            count[6],
            count[7],
        ];
        assert(record@ =~= self.record());
        record
    }

    /// Reads the fields from the first sixteen bytes of `bytes`.
    pub fn decode(bytes: &[u8]) -> (fields: Self)
        requires
            bytes@.len() >= FD_WRITE_RECORD_SIZE,
        ensures
            fields == Self::parse(bytes@),
    {
        broadcast use vstd::array::group_array_axioms;

        let fields = FdWriteFields {
            fd: get_i32(bytes, 0),
            padding: [bytes[4], bytes[5], bytes[6], bytes[7]],
            bytes: get_u64(bytes, 8),
        };
        assert(fields.padding =~= Self::parse(bytes@).padding);
        fields
    }
}

} // verus!
