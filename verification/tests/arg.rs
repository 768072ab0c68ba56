use rdpdk::cmdline::arg::arg_int::{probe_is_big_endian, ArgInt, ByteOrder};
use rdpdk::cmdline::arg::arg_net::{EthAddrArg, Ipv4AddrArg};
use rdpdk::cmdline::arg::{Arg, ArgData, ARG_DATA_SIZE};
use rdpdk::cmdline::error::FlowError;
use rdpdk::cmdline::port::PortArg;

fn bytes_of(arg: &ArgData) -> Vec<u8> {
    arg.bytes().to_vec()
}

#[test]
fn new_buffer_is_empty_and_zero() {
    let buffer = ArgData::new();
    assert_eq!(buffer.size(), 0);
    assert_eq!(buffer.data(), &[0u8; 64]);
    assert!(buffer.bytes().is_empty());
    assert_eq!(ARG_DATA_SIZE, 64);
}

#[test]
fn buffer_from_size_counts_zero_bytes() {
    let buffer = ArgData::new_from_size(6);
    assert_eq!(buffer.size(), 6);
    assert_eq!(buffer.bytes(), &[0u8; 6]);
    assert_eq!(ArgData::new_from_size(64).size(), 64);
}

#[test]
fn buffer_from_slice_copies_and_pads() {
    let buffer = ArgData::new_from_slice(&[1, 2, 3]);
    assert_eq!(buffer.size(), 3);
    assert_eq!(buffer.bytes(), &[1, 2, 3]);
    assert_eq!(&buffer.data()[3..], &[0u8; 61][..]);
}

#[test]
fn or_merge_keeps_bits_and_grows() {
    let mut buffer = ArgData::new_from_slice(&[0x0f, 0xf0]);
    assert_eq!(buffer.or_from_slice(&[0x30, 0x03, 0x55], 1), Ok(()));
    assert_eq!(buffer.bytes(), &[0x0f, 0xf0 | 0x30, 0x03, 0x55]);
    assert_eq!(buffer.size(), 4);
    assert_eq!(buffer.or_from_slice(&[0x80], 0), Ok(()));
    assert_eq!(buffer.bytes(), &[0x8f, 0xf0, 0x03, 0x55]);
    assert_eq!(buffer.size(), 4);
}

#[test]
fn and_merge_clears_bits_and_grows() {
    let mut buffer = ArgData::new_from_slice(&[0xff, 0xff, 0xff]);
    assert_eq!(buffer.and_from_slice(&[0x0f, 0xf0], 1), Ok(()));
    assert_eq!(buffer.bytes(), &[0xff, 0x0f, 0xf0]);
    assert_eq!(buffer.and_from_slice(&[0xaa], 7), Ok(()));
    assert_eq!(buffer.size(), 8);
    assert_eq!(buffer.bytes(), &[0xff, 0x0f, 0xf0, 0, 0, 0, 0, 0]);
}

#[test]
fn merge_at_the_capacity() {
    let mut buffer = ArgData::new();
    assert_eq!(buffer.or_from_slice(&[], 64), Ok(()));
    assert_eq!(buffer.size(), 64);
    let mut buffer = ArgData::new();
    assert_eq!(buffer.or_from_slice(&[7], 63), Ok(()));
    assert_eq!(buffer.data()[63], 7);
    assert_eq!(buffer.or_from_slice(&[7], 64), Err(FlowError::OutOfBounds));
    assert_eq!(buffer.and_from_slice(&[7, 7], 63), Err(FlowError::OutOfBounds));
    assert_eq!(buffer.or_from_slice(&[7], usize::MAX), Err(FlowError::OutOfBounds));
    assert_eq!(buffer.or_from_slice(&[0u8; 65], 0), Err(FlowError::OutOfBounds));
    assert_eq!(buffer.size(), 64);
    assert_eq!(buffer.data()[63], 7);
}

#[test]
fn literals_in_three_radices() {
    let reader = ArgInt::<u32>::new();
    assert_eq!(reader.strton("0"), Ok(0));
    assert_eq!(reader.strton("00"), Ok(0));
    assert_eq!(reader.strton("1234"), Ok(1234));
    assert_eq!(reader.strton("0x1234"), Ok(0x1234));
    assert_eq!(reader.strton("0X1f"), Ok(0x1f));
    assert_eq!(reader.strton("0xAbCd"), Ok(0xabcd));
    assert_eq!(reader.strton("010"), Ok(8));
    assert_eq!(reader.strton("0777"), Ok(0o777));
    assert_eq!(reader.strton("+5"), Ok(5));
    assert_eq!(reader.strton("0x+5"), Ok(5));
    assert_eq!(reader.strton("4294967295"), Ok(u32::MAX));
}

#[test]
fn literals_that_are_no_numbers() {
    let reader = ArgInt::<u32>::new();
    for bad in [
        "", "0x", "0X", "+", "-1", "12a", "0x12g", "08", "1_000", " 1", "1 ", "4294967296", "x12",
        "0b11", "１２",
    ] {
        assert_eq!(reader.strton(bad), Err(FlowError::InvalidArgument), "{:?}", bad);
    }
}

#[test]
fn literals_within_the_width() {
    assert_eq!(ArgInt::<u8>::new().strton("255"), Ok(255));
    assert_eq!(ArgInt::<u8>::new().strton("256"), Err(FlowError::InvalidArgument));
    assert_eq!(ArgInt::<u8>::new().strton("0x100"), Err(FlowError::InvalidArgument));
    assert_eq!(ArgInt::<u16>::new().strton("65535"), Ok(65535));
    assert_eq!(ArgInt::<u16>::new().strton("65536"), Err(FlowError::InvalidArgument));
    assert_eq!(ArgInt::<u64>::new().strton("0xffffffffffffffff"), Ok(u64::MAX));
    assert_eq!(
        ArgInt::<u64>::new().strton("18446744073709551616"),
        Err(FlowError::InvalidArgument)
    );
}

#[test]
fn integer_bytes_in_explicit_orders() {
    let le = ArgInt::<u32>::new_with_order(ByteOrder::LittleEndian);
    assert_eq!(le.bytes_order(), ByteOrder::LittleEndian);
    let arg = le.serialize("0x12345678").unwrap();
    assert_eq!(bytes_of(&arg), vec![0x78, 0x56, 0x34, 0x12]);
    assert_eq!(arg.size(), 4);
    assert_eq!(&arg.data()[4..], &[0u8; 60][..]);

    let be = ArgInt::<u32>::new_with_order(ByteOrder::BigEndian);
    assert_eq!(bytes_of(&be.serialize("0x12345678").unwrap()), vec![0x12, 0x34, 0x56, 0x78]);
    assert_eq!(bytes_of(&be.serialize("305419896").unwrap()), vec![0x12, 0x34, 0x56, 0x78]);
    assert_eq!(bytes_of(&be.serialize("02215053170").unwrap()), vec![0x12, 0x34, 0x56, 0x78]);

    let be16 = ArgInt::<u16>::new_with_order(ByteOrder::BigEndian);
    assert_eq!(bytes_of(&be16.serialize("0x0800").unwrap()), vec![0x08, 0x00]);
    let le16 = ArgInt::<u16>::new_with_order(ByteOrder::LittleEndian);
    assert_eq!(bytes_of(&le16.serialize("0x0800").unwrap()), vec![0x00, 0x08]);

    let be64 = ArgInt::<u64>::new_with_order(ByteOrder::BigEndian);
    assert_eq!(
        bytes_of(&be64.serialize("0x0102030405060708").unwrap()),
        vec![1, 2, 3, 4, 5, 6, 7, 8]
    );
    let le64 = ArgInt::<u64>::new_with_order(ByteOrder::LittleEndian);
    assert_eq!(
        bytes_of(&le64.serialize("0x0102030405060708").unwrap()),
        vec![8, 7, 6, 5, 4, 3, 2, 1]
    );

    let one = ArgInt::<u8>::new_with_order(ByteOrder::BigEndian);
    assert_eq!(bytes_of(&one.serialize("0x7f").unwrap()), vec![0x7f]);
}

#[test]
fn integer_bytes_in_host_order() {
    let host = ArgInt::<u16>::new();
    assert_eq!(host.bytes_order(), ByteOrder::HostOrder);
    assert_eq!(bytes_of(&host.serialize("0x1234").unwrap()), 0x1234u16.to_ne_bytes().to_vec());
    let host = ArgInt::<u32>::new_with_order(ByteOrder::HostOrder);
    assert_eq!(
        bytes_of(&host.serialize("0x12345678").unwrap()),
        0x12345678u32.to_ne_bytes().to_vec()
    );
    let host = ArgInt::<u64>::new();
    assert_eq!(
        bytes_of(&host.serialize("0x1234567812345678").unwrap()),
        0x1234567812345678u64.to_ne_bytes().to_vec()
    );
    assert!(matches!(host.serialize("nine"), Err(FlowError::InvalidArgument)));
}

#[test]
fn every_u16_round_trips_in_every_radix() {
    let be = ArgInt::<u16>::new_with_order(ByteOrder::BigEndian);
    let le = ArgInt::<u16>::new_with_order(ByteOrder::LittleEndian);
    for v in (0..=u16::MAX).step_by(97).chain([u16::MAX]) {
        for text in [format!("{}", v), format!("0x{:x}", v), format!("0{:o}", v)] {
            assert_eq!(bytes_of(&be.serialize(&text).unwrap()), v.to_be_bytes().to_vec());
            assert_eq!(bytes_of(&le.serialize(&text).unwrap()), v.to_le_bytes().to_vec());
        }
    }
}

#[test]
fn hardware_address_is_six_hex_octets() {
    let eth = EthAddrArg::new();
    let arg = eth.serialize("aa:bb:cc:dd:ee:ff").unwrap();
    assert_eq!(bytes_of(&arg), vec![0xaa, 0xbb, 0xcc, 0xdd, 0xee, 0xff]);
    assert_eq!(arg.size(), 6);
    assert_eq!(bytes_of(&eth.serialize("0:1:2:A:0b:00c").unwrap()), vec![0, 1, 2, 10, 11, 12]);
    for bad in [
        "", "aa:bb:cc:dd:ee", "aa:bb:cc:dd:ee:ff:00", "aa:bb:cc:dd:ee:gg", "aa:bb:cc:dd:ee:",
        ":aa:bb:cc:dd:ee", "aa:bb::dd:ee:ff", "aa:bb:cc:dd:ee:100", "aa-bb-cc-dd-ee-ff",
        "aa.bb.cc.dd.ee.ff",
    ] {
        assert!(matches!(eth.serialize(bad), Err(FlowError::InvalidArgument)), "{:?}", bad);
    }
}

#[test]
fn ipv4_address_is_four_decimal_octets() {
    let ipv4 = Ipv4AddrArg::new();
    let arg = ipv4.serialize("10.0.0.1").unwrap();
    assert_eq!(bytes_of(&arg), vec![10, 0, 0, 1]);
    assert_eq!(arg.size(), 4);
    assert_eq!(bytes_of(&ipv4.serialize("255.255.255.255").unwrap()), vec![255; 4]);
    assert_eq!(bytes_of(&ipv4.serialize("192.168.001.7").unwrap()), vec![192, 168, 1, 7]);
    for bad in [
        "", "10.0.0", "10.0.0.1.2", "256.0.0.1", "10.0.0.", ".10.0.0", "10..0.1", "a.b.c.d",
        "0x10.0.0.1", "10.0.0.-1", "10:0:0:1",
    ] {
        assert!(matches!(ipv4.serialize(bad), Err(FlowError::InvalidArgument)), "{:?}", bad);
    }
}

#[test]
fn addresses_round_trip() {
    let eth = EthAddrArg::new();
    let ipv4 = Ipv4AddrArg::new();
    for seed in 0u32..64 {
        let b: Vec<u8> = (0..6).map(|i| (seed.wrapping_mul(2654435761) >> (i * 4)) as u8).collect();
        let mac = format!("{:x}:{:x}:{:x}:{:x}:{:x}:{:x}", b[0], b[1], b[2], b[3], b[4], b[5]);
        assert_eq!(bytes_of(&eth.serialize(&mac).unwrap()), b);
        let ip = format!("{}.{}.{}.{}", b[0], b[1], b[2], b[3]);
        assert_eq!(bytes_of(&ipv4.serialize(&ip).unwrap()), b[..4].to_vec());
    }
}

#[test]
fn port_field_takes_a_number_or_all() {
    let port = PortArg::new();
    let all = port.serialize("all").unwrap();
    assert_eq!(bytes_of(&all), vec![0xff, 0xff]);
    assert_eq!(&all.data()[2..], &[0u8; 62][..]);
    assert_eq!(bytes_of(&port.serialize("7").unwrap()), 7u16.to_ne_bytes().to_vec());
    assert_eq!(bytes_of(&port.serialize("0x1234").unwrap()), 0x1234u16.to_ne_bytes().to_vec());
    assert!(matches!(port.serialize("ALL"), Err(FlowError::InvalidArgument)));
    assert!(matches!(port.serialize("65536"), Err(FlowError::InvalidArgument)));
}

#[test]
fn signed_literals_and_their_bytes() {
    let be = ArgInt::<i16>::new_with_order(ByteOrder::BigEndian);
    assert_eq!(be.strton("-1"), Ok(-1));
    assert_eq!(be.strton("+7"), Ok(7));
    assert_eq!(be.strton("-0"), Ok(0));
    assert_eq!(be.strton("-32768"), Ok(i16::MIN));
    assert_eq!(be.strton("32767"), Ok(i16::MAX));
    assert_eq!(be.strton("0x7fff"), Ok(i16::MAX));
    assert_eq!(be.strton("0x-10"), Ok(-16));
    assert_eq!(be.strton("0-10"), Ok(-8));
    for bad in ["-32769", "32768", "0x8000", "-", "+", "--1", "-0x10", "- 1", ""] {
        assert_eq!(be.strton(bad), Err(FlowError::InvalidArgument), "{:?}", bad);
    }
    assert_eq!(bytes_of(&be.serialize("-2").unwrap()), vec![0xff, 0xfe]);
    assert_eq!(bytes_of(&be.serialize("258").unwrap()), vec![0x01, 0x02]);
    let le = ArgInt::<i16>::new_with_order(ByteOrder::LittleEndian);
    assert_eq!(bytes_of(&le.serialize("-2").unwrap()), vec![0xfe, 0xff]);

    let one = ArgInt::<i8>::new();
    assert_eq!(bytes_of(&one.serialize("-128").unwrap()), vec![0x80]);
    assert_eq!(bytes_of(&one.serialize("127").unwrap()), vec![0x7f]);
    assert!(matches!(one.serialize("128"), Err(FlowError::InvalidArgument)));
    assert!(matches!(one.serialize("-129"), Err(FlowError::InvalidArgument)));

    let four = ArgInt::<i32>::new_with_order(ByteOrder::BigEndian);
    assert_eq!(bytes_of(&four.serialize("-2147483648").unwrap()), vec![0x80, 0, 0, 0]);
    assert_eq!(bytes_of(&four.serialize("-3").unwrap()), (-3i32).to_be_bytes().to_vec());
    assert!(matches!(four.serialize("2147483648"), Err(FlowError::InvalidArgument)));

    let eight = ArgInt::<i64>::new_with_order(ByteOrder::LittleEndian);
    assert_eq!(
        bytes_of(&eight.serialize("-9223372036854775808").unwrap()),
        i64::MIN.to_le_bytes().to_vec()
    );
    assert_eq!(bytes_of(&eight.serialize("-1").unwrap()), vec![0xff; 8]);
    assert_eq!(
        bytes_of(&eight.serialize("9223372036854775807").unwrap()),
        i64::MAX.to_le_bytes().to_vec()
    );
    assert!(matches!(eight.serialize("9223372036854775808"), Err(FlowError::InvalidArgument)));
    let host = ArgInt::<i64>::new();
    assert_eq!(bytes_of(&host.serialize("-77").unwrap()), (-77i64).to_ne_bytes().to_vec());
}

#[test]
fn every_i16_round_trips() {
    let be = ArgInt::<i16>::new_with_order(ByteOrder::BigEndian);
    let le = ArgInt::<i16>::new_with_order(ByteOrder::LittleEndian);
    for v in (i16::MIN..=i16::MAX).step_by(89).chain([i16::MAX]) {
        let text = format!("{}", v);
        assert_eq!(be.strton(&text), Ok(v));
        assert_eq!(bytes_of(&be.serialize(&text).unwrap()), v.to_be_bytes().to_vec());
        assert_eq!(bytes_of(&le.serialize(&text).unwrap()), v.to_le_bytes().to_vec());
    }
}

#[test]
fn default_mask_is_all_ones() {
    assert_eq!(ArgData::default_mask(), [0xffu8; 64]);
}

#[test]
fn probe_of_one_tells_the_byte_order() {
    assert!(probe_is_big_endian(&1u64.to_be_bytes()));
    assert!(!probe_is_big_endian(&1u64.to_le_bytes()));
    assert_eq!(
        probe_is_big_endian(&1u64.to_ne_bytes()),
        1u64.to_ne_bytes() == 1u64.to_be_bytes()
    );
    assert!(probe_is_big_endian(&[0, 9, 9, 9, 9, 9, 9, 9]));
    assert!(!probe_is_big_endian(&[2, 0, 0, 0, 0, 0, 0, 0]));
}
