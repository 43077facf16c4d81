use probes::layout::{ConnectFields, FdWriteFields, CONNECT_RECORD_SIZE, FD_WRITE_RECORD_SIZE, TAG_V4};
use probes::wire::{
    get_i32, get_u16, get_u32, get_u64, put_i32, put_u16, put_u32, put_u64,
};

#[test]
fn u16_is_laid_out_least_significant_byte_first() {
    assert_eq!(put_u16(0x1f90), [0x90, 0x1f]);
    assert_eq!(put_u16(0), [0, 0]);
    assert_eq!(put_u16(u16::MAX), [0xff, 0xff]);
}

#[test]
fn u32_is_laid_out_least_significant_byte_first() {
    assert_eq!(put_u32(0x7f00_0001), [0x01, 0x00, 0x00, 0x7f]);
    assert_eq!(put_u32(0x0102_0304), [0x04, 0x03, 0x02, 0x01]);
    assert_eq!(put_u32(u32::MAX), [0xff; 4]);
}

#[test]
fn u64_is_laid_out_least_significant_byte_first() {
    assert_eq!(put_u64(42), [42, 0, 0, 0, 0, 0, 0, 0]);
    assert_eq!(
        put_u64(0x0102_0304_0506_0708),
        [0x08, 0x07, 0x06, 0x05, 0x04, 0x03, 0x02, 0x01]
    );
    assert_eq!(put_u64(u64::MAX), [0xff; 8]);
}

#[test]
fn i32_is_laid_out_in_twos_complement() {
    assert_eq!(put_i32(5), [5, 0, 0, 0]);
    assert_eq!(put_i32(-1), [0xff, 0xff, 0xff, 0xff]);
    assert_eq!(put_i32(-2), [0xfe, 0xff, 0xff, 0xff]);
    assert_eq!(put_i32(i32::MIN), [0x00, 0x00, 0x00, 0x80]);
    assert_eq!(put_i32(i32::MAX), [0xff, 0xff, 0xff, 0x7f]);
}

#[test]
fn layout_agrees_with_the_little_endian_bytes_of_std() {
    for value in [0u64, 1, 255, 256, 0xdead_beef, 0x0123_4567_89ab_cdef, u64::MAX] {
        assert_eq!(put_u64(value), value.to_le_bytes());
        assert_eq!(put_u32(value as u32), (value as u32).to_le_bytes());
        assert_eq!(put_u16(value as u16), (value as u16).to_le_bytes());
        assert_eq!(put_i32(value as i32), (value as i32).to_le_bytes());
    }
}

#[test]
fn numbers_are_read_at_an_offset() {
    let bytes = [0xaa, 0x90, 0x1f, 0x01, 0x00, 0x00, 0x7f, 0xff, 0xff, 0xff, 0xff];
    assert_eq!(get_u16(&bytes, 1), 8080);
    assert_eq!(get_u32(&bytes, 3), 0x7f00_0001);
    assert_eq!(get_i32(&bytes, 7), -1);
    assert_eq!(get_u32(&bytes, 7), u32::MAX);
    let wide = [9, 42, 0, 0, 0, 0, 0, 0, 0];
    assert_eq!(get_u64(&wide, 1), 42);
    assert_eq!(get_u64(&wide, 0), 9 + 42 * 256);
}

#[test]
fn reading_gives_back_what_was_laid_out() {
    for value in [0u64, 7, 0x8000_0000, 0xffff_ffff, 0x1234_5678_9abc_def0, u64::MAX] {
        assert_eq!(get_u64(&put_u64(value), 0), value);
        assert_eq!(get_u32(&put_u32(value as u32), 0), value as u32);
        assert_eq!(get_u16(&put_u16(value as u16), 0), value as u16);
        assert_eq!(get_i32(&put_i32(value as i32), 0), value as i32);
    }
}

#[test]
fn connect_fields_stand_at_their_offsets() {
    let fields = ConnectFields {
        fd: 3,
        port: 8080,
        padding: [0xa5, 0x5a],
        tag: TAG_V4,
        address: 0x7f00_0001,
    };
    let record = fields.encode();
    assert_eq!(record.len(), CONNECT_RECORD_SIZE);
    assert_eq!(
        record,
        [3, 0, 0, 0, 0x90, 0x1f, 0xa5, 0x5a, 0, 0, 0, 0, 0x01, 0x00, 0x00, 0x7f]
    );
    let back = ConnectFields::decode(&record);
    assert_eq!(back.fd, 3);
    assert_eq!(back.port, 8080);
    assert_eq!(back.padding, [0xa5, 0x5a]);
    assert_eq!(back.tag, TAG_V4);
    assert_eq!(back.address, 0x7f00_0001);
}

#[test]
fn fd_write_fields_stand_at_their_offsets() {
    let fields = FdWriteFields { fd: 5, padding: [1, 2, 3, 4], bytes: 42 };
    let record = fields.encode();
    assert_eq!(record.len(), FD_WRITE_RECORD_SIZE);
    assert_eq!(record, [5, 0, 0, 0, 1, 2, 3, 4, 42, 0, 0, 0, 0, 0, 0, 0]);
    let back = FdWriteFields::decode(&record);
    assert_eq!(back.fd, 5);
    assert_eq!(back.padding, [1, 2, 3, 4]);
    assert_eq!(back.bytes, 42);
}
