use space_rust_library::c_packet::{CucTimeAccessor, Packet, PacketIntf};
use space_rust_library::crc::calculate16;
use space_rust_library::cuc_time::{
    get_data_size, get_full_data_size, has_p_field, Time, L1_TIME_4_0, L1_TIME_4_1, L1_TIME_4_2,
    L1_TIME_4_3, L2_TIME_4_0, L2_TIME_4_1, L2_TIME_4_2, L2_TIME_4_3, T1_TIME_4_0, T1_TIME_4_1,
    T1_TIME_4_2, T1_TIME_4_3, T2_TIME_4_0, T2_TIME_4_1, T2_TIME_4_2, T2_TIME_4_3,
};
use space_rust_library::du::{DUintf, DU};
use space_rust_library::exception::ErrorKind;
use space_rust_library::xtime::{fraction_nsec, get_time, get_zero_time, Timespec};

fn all_codes() -> [u8; 16] {
    [
    L1_TIME_4_0, L1_TIME_4_1, L1_TIME_4_2, L1_TIME_4_3, L2_TIME_4_0, L2_TIME_4_1, L2_TIME_4_2,
    L2_TIME_4_3, T1_TIME_4_0, T1_TIME_4_1, T1_TIME_4_2, T1_TIME_4_3, T2_TIME_4_0, T2_TIME_4_1,
    T2_TIME_4_2, T2_TIME_4_3,
    ]
}

#[test]
fn bit_field_round_trip() {
    for length in 1..=32usize {
        for offset in 0..=17usize {
            let max = ((1u64 << length) - 1) as u32;
            for value in [0u32, 1, max, max / 3, max ^ (max >> 1)] {
                let mut du = DU::new_owner(vec![0xa5; 8]);
                du.set_bits(offset, length, value).unwrap();
                assert_eq!(du.get_bits(offset, length).unwrap(), value);
                // the bits around the field keep their value
                if offset > 0 {
                    assert_eq!(du.get_bits(0, offset.min(32)).unwrap(),
                        DU::new_owner(vec![0xa5; 8]).get_bits(0, offset.min(32)).unwrap());
                }
                let end = offset + length;
                if end < 64 {
                    let rest = (64 - end).min(32);
                    assert_eq!(du.get_bits(end, rest).unwrap(),
                        DU::new_owner(vec![0xa5; 8]).get_bits(end, rest).unwrap());
                }
            }
        }
    }
}

#[test]
fn bit_field_msb_first() {
    let du = DU::new_owner(vec![0x80, 0x01]);
    assert_eq!(du.get_bits(0, 1).unwrap(), 1);
    assert_eq!(du.get_bits(1, 1).unwrap(), 0);
    assert_eq!(du.get_bits(15, 1).unwrap(), 1);
    assert_eq!(du.get_bits(0, 16).unwrap(), 0x8001);
    assert_eq!(du.get_bits(4, 8).unwrap(), 0x00);
    let mut du = DU::new_alloc(2);
    du.set_bits(4, 8, 0xff).unwrap();
    assert_eq!(du.buffer_read_only(), &[0x0f, 0xf0]);
}

#[test]
fn bit_field_errors() {
    let mut du = DU::new_alloc(4);
    assert_eq!(du.get_bits(0, 0).unwrap_err().kind, ErrorKind::InvalidLength);
    assert_eq!(du.get_bits(0, 33).unwrap_err().kind, ErrorKind::InvalidLength);
    assert_eq!(du.get_bits(1, 32).unwrap_err().kind, ErrorKind::RangeError);
    assert_eq!(du.get_bits(0, 32).unwrap(), 0);
    assert_eq!(du.set_bits(0, 3, 8).unwrap_err().kind, ErrorKind::ValueOverflow);
    assert_eq!(du.set_bits(30, 3, 7).unwrap_err().kind, ErrorKind::RangeError);
    assert_eq!(du.set_bits(0, 0, 0).unwrap_err().kind, ErrorKind::InvalidLength);
    assert_eq!(du.buffer_read_only(), &[0, 0, 0, 0]);
}

#[test]
fn unsigned_round_trip() {
    for length in 1..=4usize {
        let max = if length == 4 { u32::MAX } else { (1u32 << (8 * length)) - 1 };
        for value in [0u32, 1, 0x5a, max / 2, max] {
            let mut du = DU::new_alloc(6);
            du.set_unsigned(1, length, value).unwrap();
            assert_eq!(du.get_unsigned(1, length).unwrap(), value);
        }
        if length < 4 {
            let mut du = DU::new_alloc(6);
            let error = du.set_unsigned(1, length, max + 1).unwrap_err();
            assert_eq!(error.kind, ErrorKind::ValueOverflow);
            assert_eq!(du.buffer_read_only(), &[0u8; 6]);
        }
    }
    let mut du = DU::new_alloc(4);
    du.set_unsigned(0, 4, 0x01020304).unwrap();
    assert_eq!(du.buffer_read_only(), &[1, 2, 3, 4]);
    assert_eq!(du.get_unsigned(0, 5).unwrap_err().kind, ErrorKind::InvalidLength);
    assert_eq!(du.get_unsigned(0, 0).unwrap_err().kind, ErrorKind::InvalidLength);
    assert_eq!(du.get_unsigned(2, 3).unwrap_err().kind, ErrorKind::RangeError);
    assert_eq!(du.set_unsigned(2, 3, 1).unwrap_err().kind, ErrorKind::RangeError);
}

#[test]
fn big_unsigned_round_trip() {
    for length in 1..=8usize {
        let max = if length == 8 { u64::MAX } else { (1u64 << (8 * length)) - 1 };
        for value in [0u64, 1, max / 3, max] {
            let mut du = DU::new_alloc(9);
            du.set_big_unsigned(1, length, value).unwrap();
            assert_eq!(du.get_big_unsigned(1, length).unwrap(), value);
        }
        if length < 8 {
            let mut du = DU::new_alloc(9);
            assert_eq!(du.set_big_unsigned(0, length, max + 1).unwrap_err().kind, ErrorKind::ValueOverflow);
        }
    }
    let du = DU::new_alloc(9);
    assert_eq!(du.get_big_unsigned(0, 9).unwrap_err().kind, ErrorKind::InvalidLength);
    assert_eq!(du.get_big_unsigned(2, 8).unwrap_err().kind, ErrorKind::RangeError);
}

#[test]
fn byte_span_copy_truncates() {
    let mut du = DU::new_owner(vec![9; 8]);
    du.set_bytes(2, 4, &[1, 2]).unwrap();
    assert_eq!(du.buffer_read_only(), &[9, 9, 1, 2, 9, 9, 9, 9]);
    du.set_bytes(2, 2, &[5, 6, 7, 8]).unwrap();
    assert_eq!(du.buffer_read_only(), &[9, 9, 5, 6, 9, 9, 9, 9]);
    assert_eq!(du.get_bytes(2, 3).unwrap(), &[5, 6, 9]);
    assert_eq!(du.get_bytes(2, 0).unwrap_err().kind, ErrorKind::InvalidLength);
    assert_eq!(du.get_bytes(6, 3).unwrap_err().kind, ErrorKind::RangeError);
    assert_eq!(du.set_bytes(7, 2, &[1]).unwrap_err().kind, ErrorKind::RangeError);
    assert_eq!(du.set_bytes(0, 0, &[1]).unwrap_err().kind, ErrorKind::InvalidLength);
}

#[test]
fn resize_zero_fills_and_preserves() {
    let mut du = DU::new_owner(vec![0xaa; 10]);
    du.resize(32);
    assert_eq!(du.size(), 32);
    assert_eq!(&du.buffer_read_only()[..10], &[0xaa; 10]);
    assert_eq!(&du.buffer_read_only()[10..], &[0u8; 22]);
    du.resize(32);
    assert_eq!(du.size(), 32);
    du.resize(4);
    assert_eq!(du.buffer_read_only(), &[0xaa; 4]);
}

#[test]
fn borrowed_buffers() {
    let mut array = [0u8; 4];
    {
        let mut du = DU::new_read_write(&mut array[..]);
        du.set_unsigned(0, 2, 0x1234).unwrap();
        *du.at_mut(3) = 7;
    }
    assert_eq!(array, [0x12, 0x34, 0, 7]);
    let du = DU::new_read_only(&array[..]);
    assert_eq!(du[1], 0x34);
    assert_eq!(*du.at(3), 7);
    assert_eq!(du.get_unsigned(0, 2).unwrap(), 0x1234);
}

#[test]
fn dump_format() {
    let du = DU::new_owner(vec![0x41, 0x1f, 0x7f, 0x80, 0x20]);
    let expected = format!("\n0000 41 1f 7f 80 20 {}A.\u{7f}. ", " ".repeat(33));
    assert_eq!(du.dump_str(), expected);
    let big = DU::new_alloc(65536 + 100);
    let text = big.dump_str();
    assert_eq!(text.matches('\n').count(), 4096);
    assert!(text.ends_with("\nfff0 00 00 00 00 00 00 00 00 00 00 00 00 00 00 00 00 ................"));
    assert_eq!(DU::new().dump_str(), "EMPTY");
}

#[test]
fn crc_of_nothing_is_preset() {
    assert_eq!(calculate16(&[], 0), 0xffff);
    assert_eq!(calculate16(&[1, 2, 3], 0), 0xffff);
}

#[test]
fn crc_known_answer() {
    assert_eq!(calculate16(b"123456789", 9), 0x29b1);
}

#[test]
fn cuc_round_trip_every_format() {
    for code in all_codes() {
        for sec in [0i64, 1, 0x01020304, 0xffff_ffff] {
            let time = Time::new_from_timespec(code, Timespec::new(sec, 0)).unwrap();
            assert_eq!(time.get_p_field(), code);
            let back = time.to_timespec();
            assert_eq!(back, Timespec::new(sec, 0));
        }
    }
}

#[test]
fn cuc_fine_precision() {
    let time = Time::new_from_timespec(L2_TIME_4_3, Timespec::new(0x01020304, 500_000_000)).unwrap();
    assert_eq!(time.to_timespec(), Timespec::new(0x01020304, 500_000_000));
}

#[test]
fn cuc_lossy_rounding() {
    let time = Time::new_from_timespec(L2_TIME_4_1, Timespec::new(0x01020304, 600)).unwrap();
    assert_eq!(time.dump_str(), "L2Time41((1,2,3,4),(0))");
    assert_eq!(time.to_timespec(), Timespec::new(0x01020304, 0));
    let time = Time::new_from_timespec(L1_TIME_4_2, Timespec::new(7, 999_999_999)).unwrap();
    assert_eq!(time.dump_str(), "L1Time42((0,0,0,7),(255,255))");
    assert_eq!(time.to_timespec(), Timespec::new(7, 999_984_741));
}

#[test]
fn cuc_errors() {
    assert_eq!(Time::new_from_timespec(0x00, get_zero_time()).unwrap_err().kind, ErrorKind::InvalidFormatCode);
    assert_eq!(Time::new_from_timespec(L1_TIME_4_3, get_time(5, -1)).unwrap_err().kind, ErrorKind::NegativeTime);
    assert_eq!(Time::new_from_timespec(L1_TIME_4_3, get_time(-5, 0)).unwrap_err().kind, ErrorKind::NegativeTime);
    assert_eq!(Time::new_from_timespec(L1_TIME_4_3, get_time(1 << 32, 0)).unwrap_err().kind, ErrorKind::OutOfRange);
    assert_eq!(Time::new_from_p_field(0x3c).unwrap_err().kind, ErrorKind::InvalidFormatCode);
    let mut time = Time::new_l1_time_4_1_init(1, 2, 3, 4, 5);
    assert!(time.init_from_timespec(get_time(3, -2)).is_err());
    assert_eq!(time.dump_str(), "L1Time41((1,2,3,4),(5))");
}

#[test]
fn cuc_sizes() {
    assert!(has_p_field(L1_TIME_4_0));
    assert!(has_p_field(L2_TIME_4_3));
    assert!(!has_p_field(T1_TIME_4_0));
    assert!(!has_p_field(0x00));
    assert_eq!(get_data_size(L2_TIME_4_3).unwrap(), 7);
    assert_eq!(get_data_size(T1_TIME_4_0).unwrap(), 4);
    assert_eq!(get_full_data_size(L2_TIME_4_3).unwrap(), 8);
    assert_eq!(get_full_data_size(T2_TIME_4_2).unwrap(), 6);
    assert_eq!(get_full_data_size(T1_TIME_4_1).unwrap(), 5);
    assert_eq!(get_data_size(0x1b).unwrap_err().kind, ErrorKind::InvalidFormatCode);
    assert_eq!(get_full_data_size(0xff).unwrap_err().kind, ErrorKind::InvalidFormatCode);
    assert_eq!(get_data_size(T2_TIME_4_1).unwrap(), 5);
    assert_eq!(get_data_size(L1_TIME_4_2).unwrap(), 6);
    assert_eq!(get_full_data_size(L1_TIME_4_1).unwrap(), 6);
    assert_eq!(get_full_data_size(T1_TIME_4_2).unwrap(), 6);
    assert_eq!(get_full_data_size(T1_TIME_4_3).unwrap(), 7);
    assert_eq!(get_data_size(L2_TIME_4_0).unwrap(), 4);
    assert_eq!(get_data_size(L2_TIME_4_2).unwrap(), 6);
    assert_eq!(get_data_size(T2_TIME_4_3).unwrap(), 7);
}

#[test]
fn cuc_encode_decode() {
    let time = Time::new_t1_time_4_2_init(1, 2, 3, 4, 5, 6);
    let mut bytes = [0xeeu8; 8];
    time.encode(&mut bytes, 1);
    assert_eq!(bytes, [0xee, 1, 2, 3, 4, 5, 6, 0xee]);
    let back = Time::decode(&bytes[1..], T1_TIME_4_2).unwrap();
    assert_eq!(back.dump_str(), "T1Time42((1,2,3,4),(5,6))");
    let time = Time::new_l1_time_4_3_init(9, 8, 7, 6, 5, 4, 3);
    let mut bytes = [0u8; 8];
    time.update_to_bytes(&mut bytes);
    assert_eq!(bytes, [L1_TIME_4_3, 9, 8, 7, 6, 5, 4, 3]);
    // the selector byte in the bytes decides an embedded format
    let back = Time::decode(&bytes, L2_TIME_4_0).unwrap();
    assert_eq!(back.get_p_field(), L1_TIME_4_3);
    assert_eq!(back.dump_str(), "L1Time43((9,8,7,6),(5,4,3))");
    assert_eq!(Time::decode(&bytes[..7], L2_TIME_4_0).unwrap_err().kind, ErrorKind::RangeError);
    assert_eq!(Time::decode(&[T1_TIME_4_0, 1, 2, 3, 4], L2_TIME_4_0).unwrap_err().kind, ErrorKind::InvalidFormatCode);
    assert_eq!(Time::decode(&[], L2_TIME_4_0).unwrap_err().kind, ErrorKind::RangeError);
    assert_eq!(Time::decode(&[1, 2, 3], T2_TIME_4_0).unwrap_err().kind, ErrorKind::RangeError);
    let mut again = Time::new_l1_time_4_3();
    again.init_from_bytes(&bytes);
    assert_eq!(again.dump_str(), "L1Time43((9,8,7,6),(5,4,3))");
}

#[test]
fn packet_scenario() {
    let mut packet = Packet::new_alloc(32);
    packet.set_packet_length().unwrap();
    assert_eq!(packet.get_packet_length_field().unwrap(), 25);
    assert_eq!(packet[5], 0x19);
    let acc = CucTimeAccessor { byte_pos: 16, p_field: 0x2f };
    let time = Time::new_l2_time_4_3_init(1, 2, 3, 4, 5, 6, 7);
    packet.set_cuc_time_acc(acc, time).unwrap();
    assert_eq!(&packet.buffer_read_only()[16..24], &[0x2f, 1, 2, 3, 4, 5, 6, 7]);
    let back = packet.get_cuc_time_acc(acc).unwrap();
    assert_eq!(back.dump_str(), "L2Time43((1,2,3,4),(5,6,7))");
    assert!(packet.check_packet_length().unwrap());
}

#[test]
fn set_checksum_refuses_inconsistent_length() {
    let mut packet = Packet::new_owner(vec![0x11; 32]);
    let error = packet.set_checksum().unwrap_err();
    assert_eq!(error.kind, ErrorKind::InconsistentLength);
    assert_eq!(packet.buffer_read_only(), &[0x11u8; 32][..]);
    assert!(!packet.check_checksum().unwrap());
    let mut short = Packet::new_owner(vec![0; 5]);
    assert_eq!(short.set_checksum().unwrap_err().kind, ErrorKind::RangeError);
}

#[test]
fn checksum_round_trip() {
    let mut packet = Packet::new_alloc(12);
    packet.set_application_process_id_field(0x7ff).unwrap();
    packet.set_checksum().unwrap();
    let crc = calculate16(packet.buffer_read_only(), 10);
    assert_eq!(packet.get_unsigned(10, 2).unwrap(), crc as u32);
    assert!(packet.check_checksum().unwrap());
    *packet.at_mut(7) = 1;
    assert!(!packet.check_checksum().unwrap());
}

#[test]
fn packet_length_errors() {
    let mut packet = Packet::new_owner(vec![0; 6]);
    assert_eq!(packet.set_packet_length().unwrap_err().kind, ErrorKind::BufferTooSmall);
    assert!(!packet.check_packet_length().unwrap());
    let mut packet = Packet::new_owner(vec![0; 0xffff + 8]);
    assert_eq!(packet.set_packet_length().unwrap_err().kind, ErrorKind::OutOfRange);
    let mut packet = Packet::new_owner(vec![0; 0xffff + 7]);
    packet.set_packet_length().unwrap();
    assert_eq!(packet.get_packet_length_field().unwrap(), 0xffff);
}

#[test]
fn primary_header_fields() {
    let mut packet = Packet::new_alloc(8);
    packet.set_version_number_field(5).unwrap();
    packet.set_packet_type_field(1).unwrap();
    packet.set_data_field_header_flag_field(1).unwrap();
    packet.set_application_process_id_field(0x123).unwrap();
    packet.set_segmentation_flags_field(3).unwrap();
    packet.set_sequence_control_count_field(0x2abc).unwrap();
    assert_eq!(&packet.buffer_read_only()[..4], &[0xb9, 0x23, 0xea, 0xbc]);
    assert_eq!(packet.get_version_number_field().unwrap(), 5);
    assert_eq!(packet.get_packet_type_field().unwrap(), 1);
    assert_eq!(packet.get_data_field_header_flag_field().unwrap(), 1);
    assert_eq!(packet.get_application_process_id_field().unwrap(), 0x123);
    assert_eq!(packet.get_segmentation_flags_field().unwrap(), 3);
    assert_eq!(packet.get_sequence_control_count_field().unwrap(), 0x2abc);
    assert_eq!(packet.set_packet_type_field(2).unwrap_err().kind, ErrorKind::ValueOverflow);
    packet.set_packet_length_field(3).unwrap();
    assert_eq!(packet.get_packet_length_field().unwrap(), 3);
}

#[test]
fn asd_fraction() {
    assert_eq!(fraction_nsec(b""), Some(0));
    assert_eq!(fraction_nsec(b"."), Some(0));
    assert_eq!(fraction_nsec(b".1"), Some(100_000_000));
    assert_eq!(fraction_nsec(b".12"), Some(120_000_000));
    assert_eq!(fraction_nsec(b".1234567"), Some(123_456_700));
    assert_eq!(fraction_nsec(b".123456789"), Some(123_456_789));
    assert_eq!(fraction_nsec(b".x"), None);
    assert_eq!(fraction_nsec(b".0123456789"), None);
}
