use probes::dispatch::{process_connect_event, process_fd_write_event, Event, RecordKind};
use probes::extract::{Registers, SocketAddress, AF_INET};
use probes::fd::{FdWriteEvent, IpAddress, SocketConnectEvent};
use probes::sockets;
use probes::transport::Transport;

fn ipv4(port: u16, address: u32) -> SocketAddress {
    SocketAddress {
        family: Some(AF_INET),
        port: Some(port.to_le_bytes()),
        address: Some(address.to_le_bytes()),
    }
}

#[test]
fn connect_to_localhost_is_reported_in_host_order() {
    // The port and the address as a little-endian load shows them: the
    // bytes in memory are 1f 90 and 7f 00 00 01.
    let regs = Registers { parm1: 9, parm2: 0x7ffd_0000_1000, parm3: 16 };
    let addr = ipv4(0x901f, 0x0100_007f);
    let mut transport = Transport::new();
    assert!(transport.open("connect_event", 1024));
    assert_eq!(probes::fd::process_connect_ipv4(&regs, &addr, &mut transport), Some(()));
    let (name, record) = transport.next().expect("one record waits");
    assert_eq!(name, "connect_event");
    let decoded = SocketConnectEvent::decode(&record).expect("a connect record");
    assert_eq!(decoded.fd, 9);
    assert_eq!(decoded.port, 8080);
    assert_eq!(decoded.address, IpAddress::V4(0x7f00_0001));
    assert_eq!(decoded.address.to_text(), "127.0.0.1");
    assert_eq!(decoded.address.octets(), [127, 0, 0, 1]);
}

#[test]
fn write_of_42_bytes_is_reported_unchanged() {
    let regs = Registers { parm1: 5, parm2: 0x5555_0000, parm3: 42 };
    let mut transport = Transport::new();
    assert!(transport.open("fd_write_event", 1024));
    probes::fd::write_handler(&regs, &mut transport);
    let (name, record) = transport.next().expect("one record waits");
    assert_eq!(name, "fd_write_event");
    let decoded = FdWriteEvent::decode(&record).expect("a write record");
    assert_eq!(decoded.fd, 5);
    assert_eq!(decoded.bytes, 42);
}

#[test]
fn write_count_is_never_transformed() {
    for count in [0u64, 1, 255, 256, 0xffff_ffff, 0x1_0000_0000, u64::MAX] {
        let regs = Registers { parm1: 1, parm2: 0, parm3: count };
        let event = FdWriteEvent::new(
            probes::extract::write_arguments(&regs).fd,
            probes::extract::write_arguments(&regs).bytes,
        );
        let decoded = FdWriteEvent::decode(&event.encode()).unwrap();
        assert_eq!(decoded.bytes, count);
    }
}

#[test]
fn new_zeroes_the_padding() {
    let connect = SocketConnectEvent::new(3, 443, IpAddress::V4(0x0a00_0001));
    assert_eq!(connect.fd, 3);
    assert_eq!(connect.port, 443);
    assert_eq!(connect.address, IpAddress::V4(0x0a00_0001));
    assert_eq!(connect._padding, [0, 0]);
    let write = FdWriteEvent::new(4, 4096);
    assert_eq!(write.fd, 4);
    assert_eq!(write.bytes, 4096);
    assert_eq!(write._padding, [0, 0, 0, 0]);
    let other = sockets::ConnectEvent::new(3, 443, sockets::IpAddress::V4(0x0a00_0001));
    assert_eq!(other.fd, 3);
    assert_eq!(other.port, 443);
    assert_eq!(other.address, sockets::IpAddress::V4(0x0a00_0001));
    assert_eq!(other._padding, [0, 0]);
}

#[test]
fn connect_record_has_the_fixed_layout() {
    let event = SocketConnectEvent::new(3, 8080, IpAddress::V4(0x7f00_0001));
    assert_eq!(
        event.encode(),
        [3, 0, 0, 0, 0x90, 0x1f, 0, 0, 0, 0, 0, 0, 0x01, 0x00, 0x00, 0x7f]
    );
    let negative = SocketConnectEvent::new(-1, 65535, IpAddress::V4(u32::MAX));
    assert_eq!(
        negative.encode(),
        [0xff, 0xff, 0xff, 0xff, 0xff, 0xff, 0, 0, 0, 0, 0, 0, 0xff, 0xff, 0xff, 0xff]
    );
}

#[test]
fn fd_write_record_has_the_fixed_layout() {
    let event = FdWriteEvent::new(5, 42);
    assert_eq!(event.encode(), [5, 0, 0, 0, 0, 0, 0, 0, 42, 0, 0, 0, 0, 0, 0, 0]);
    let large = FdWriteEvent::new(i32::MIN, 0x0102_0304_0506_0708);
    assert_eq!(
        large.encode(),
        [0, 0, 0, 0x80, 0, 0, 0, 0, 0x08, 0x07, 0x06, 0x05, 0x04, 0x03, 0x02, 0x01]
    );
}

#[test]
fn both_connect_records_share_one_layout() {
    let here = SocketConnectEvent::new(12, 53, IpAddress::V4(0x0808_0808));
    let there = sockets::ConnectEvent::new(12, 53, sockets::IpAddress::V4(0x0808_0808));
    assert_eq!(here.encode(), there.encode());
    let decoded = SocketConnectEvent::decode(&there.encode()).unwrap();
    assert_eq!(decoded, here);
    let decoded = sockets::ConnectEvent::decode(&here.encode()).unwrap();
    assert_eq!(decoded, there);
}

#[test]
fn connect_event_survives_the_round_trip() {
    let events = [
        SocketConnectEvent::new(0, 0, IpAddress::V4(0)),
        SocketConnectEvent::new(3, 8080, IpAddress::V4(0x7f00_0001)),
        SocketConnectEvent::new(-1, u16::MAX, IpAddress::V4(u32::MAX)),
        SocketConnectEvent::new(i32::MIN, 1, IpAddress::V4(0x8000_0000)),
        SocketConnectEvent::new(i32::MAX, 256, IpAddress::V4(0x0102_0304)),
        SocketConnectEvent { fd: 7, port: 22, _padding: [0xde, 0xad], address: IpAddress::V4(1) },
    ];
    for event in events {
        assert_eq!(SocketConnectEvent::decode(&event.encode()), Some(event));
    }
}

#[test]
fn fd_write_event_survives_the_round_trip() {
    let events = [
        FdWriteEvent::new(0, 0),
        FdWriteEvent::new(5, 42),
        FdWriteEvent::new(-1, u64::MAX),
        FdWriteEvent::new(i32::MIN, 1 << 63),
        FdWriteEvent::new(i32::MAX, 0x0123_4567_89ab_cdef),
        FdWriteEvent { fd: 1, _padding: [1, 2, 3, 4], bytes: 9 },
    ];
    for event in events {
        assert_eq!(FdWriteEvent::decode(&event.encode()), Some(event));
    }
}

#[test]
fn sockets_connect_event_survives_the_round_trip() {
    let events = [
        sockets::ConnectEvent::new(3, 8080, sockets::IpAddress::V4(0x7f00_0001)),
        sockets::ConnectEvent::new(-7, 1, sockets::IpAddress::V4(u32::MAX)),
        sockets::ConnectEvent {
            fd: 7,
            port: 22,
            _padding: [0xbe, 0xef],
            address: sockets::IpAddress::V4(1),
        },
    ];
    for event in events {
        assert_eq!(sockets::ConnectEvent::decode(&event.encode()), Some(event));
    }
}

#[test]
fn decoded_record_encodes_to_the_same_bytes() {
    let bytes = [1, 2, 3, 4, 5, 6, 7, 8, 0, 0, 0, 0, 13, 14, 15, 16];
    let connect = SocketConnectEvent::decode(&bytes).unwrap();
    assert_eq!(connect.encode(), bytes);
    let bytes = [1, 2, 3, 4, 5, 6, 7, 8, 9, 10, 11, 12, 13, 14, 15, 16];
    let write = FdWriteEvent::decode(&bytes).unwrap();
    assert_eq!(write.encode(), bytes);
}

#[test]
fn short_records_are_not_decoded() {
    let connect = SocketConnectEvent::new(3, 8080, IpAddress::V4(0x7f00_0001)).encode();
    let write = FdWriteEvent::new(5, 42).encode();
    for len in 0..16 {
        assert_eq!(SocketConnectEvent::decode(&connect[..len]), None);
        assert_eq!(sockets::ConnectEvent::decode(&connect[..len]), None);
        assert_eq!(FdWriteEvent::decode(&write[..len]), None);
    }
}

#[test]
fn bytes_behind_a_record_are_not_looked_at() {
    let mut bytes = SocketConnectEvent::new(3, 8080, IpAddress::V4(0x7f00_0001)).encode().to_vec();
    bytes.extend_from_slice(&[0xff; 8]);
    let decoded = SocketConnectEvent::decode(&bytes).unwrap();
    assert_eq!(decoded, SocketConnectEvent::new(3, 8080, IpAddress::V4(0x7f00_0001)));
    let mut bytes = FdWriteEvent::new(5, 42).encode().to_vec();
    bytes.push(1);
    assert_eq!(FdWriteEvent::decode(&bytes), Some(FdWriteEvent::new(5, 42)));
}

#[test]
fn unknown_address_family_is_not_decoded() {
    let mut bytes = SocketConnectEvent::new(3, 8080, IpAddress::V4(0x7f00_0001)).encode();
    bytes[8] = 1;
    assert_eq!(SocketConnectEvent::decode(&bytes), None);
    assert_eq!(sockets::ConnectEvent::decode(&bytes), None);
    bytes[8] = 0;
    bytes[11] = 0x80;
    assert_eq!(SocketConnectEvent::decode(&bytes), None);
}

#[test]
fn address_is_written_as_dotted_quad() {
    assert_eq!(IpAddress::V4(0x7f00_0001).to_text(), "127.0.0.1");
    assert_eq!(IpAddress::V4(0).to_text(), "0.0.0.0");
    assert_eq!(IpAddress::V4(u32::MAX).to_text(), "255.255.255.255");
    assert_eq!(IpAddress::V4(0xc0a8_010a).to_text(), "192.168.1.10");
    assert_eq!(IpAddress::V4(0x0a00_6409).to_text(), "10.0.100.9");
    assert_eq!(sockets::IpAddress::V4(0x0808_0404).to_text(), "8.8.4.4");
    assert_eq!(sockets::IpAddress::V4(0x0808_0404).octets(), [8, 8, 4, 4]);
}

#[test]
fn address_text_agrees_with_std_formatting() {
    for bits in [0u32, 1, 0x7f00_0001, 0xc0a8_0001, 0x0102_0304, 0xfffe_fdfc, u32::MAX] {
        let [a, b, c, d] = bits.to_be_bytes();
        assert_eq!(IpAddress::V4(bits).to_text(), format!("{}.{}.{}.{}", a, b, c, d));
        assert_eq!(IpAddress::V4(bits).octets(), bits.to_be_bytes());
    }
}

#[test]
fn connect_line_names_descriptor_address_and_port() {
    let event = SocketConnectEvent::new(3, 8080, IpAddress::V4(0x7f00_0001));
    assert_eq!(
        process_connect_event(event),
        "Connect event, fd: 3, address: 127.0.0.1, port: 8080"
    );
    let event = SocketConnectEvent::new(-1, 0, IpAddress::V4(0));
    assert_eq!(process_connect_event(event), "Connect event, fd: -1, address: 0.0.0.0, port: 0");
    let event = SocketConnectEvent::new(i32::MIN, 65535, IpAddress::V4(u32::MAX));
    assert_eq!(
        process_connect_event(event),
        "Connect event, fd: -2147483648, address: 255.255.255.255, port: 65535"
    );
}

#[test]
fn fd_write_line_names_descriptor_and_count() {
    assert_eq!(process_fd_write_event(FdWriteEvent::new(5, 42)), "FD write event, fd: 5, bytes: 42");
    assert_eq!(process_fd_write_event(FdWriteEvent::new(0, 0)), "FD write event, fd: 0, bytes: 0");
    assert_eq!(
        process_fd_write_event(FdWriteEvent::new(i32::MAX, u64::MAX)),
        "FD write event, fd: 2147483647, bytes: 18446744073709551615"
    );
    assert_eq!(
        process_fd_write_event(FdWriteEvent::new(-10, 1000)),
        "FD write event, fd: -10, bytes: 1000"
    );
}

#[test]
fn lines_agree_with_std_formatting() {
    for fd in [0, 1, 9, 10, 99, 100, -1, -9, -10, i32::MAX, i32::MIN] {
        for bytes in [0u64, 9, 10, 11, 1234567890, u64::MAX] {
            assert_eq!(
                process_fd_write_event(FdWriteEvent::new(fd, bytes)),
                format!("FD write event, fd: {}, bytes: {}", fd, bytes)
            );
        }
    }
}

#[test]
fn a_kind_decodes_its_own_shape() {
    let connect = SocketConnectEvent::new(3, 8080, IpAddress::V4(0x7f00_0001));
    let write = FdWriteEvent::new(5, 42);
    assert_eq!(RecordKind::Connect.decode(&connect.encode()), Some(Event::Connect(connect)));
    assert_eq!(RecordKind::FdWrite.decode(&write.encode()), Some(Event::FdWrite(write)));
    assert_eq!(RecordKind::Connect.decode(&[0; 15]), None);
    assert_eq!(RecordKind::FdWrite.decode(&[]), None);
    assert_eq!(
        Event::Connect(connect).handle(),
        "Connect event, fd: 3, address: 127.0.0.1, port: 8080"
    );
    assert_eq!(Event::FdWrite(write).handle(), "FD write event, fd: 5, bytes: 42");
}
