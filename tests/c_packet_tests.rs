use space_rust_library::c_packet;
use space_rust_library::c_packet::PacketIntf;
use space_rust_library::cuc_time;
use space_rust_library::du::DUintf;
use space_rust_library::exception::ErrorKind;

fn assert_dump_cuc_time(val: cuc_time::Time, expected: cuc_time::Time) {
    assert_eq!(val.dump_str(), expected.dump_str());
}

fn test_cuc_time_set_error(
    acc: c_packet::CucTimeAccessor,
    cuc_time: cuc_time::Time,
    expected: ErrorKind) {
    let mut packet = c_packet::Packet::new_alloc(32);
    let before = packet.dump_str();
    let error = packet.set_cuc_time_acc(acc, cuc_time).
        expect_err("expected error did not happen");
    assert_eq!(error.kind, expected);
    assert_eq!(packet.dump_str(), before);
}

fn test_cuc_time_get_error(acc: c_packet::CucTimeAccessor, expected: ErrorKind) {
    let packet = c_packet::Packet::new_alloc(32);
    let error = packet.get_cuc_time_acc(acc).
        expect_err("expected error did not happen");
    assert_eq!(error.kind, expected);
}

fn test_cuc_time_set_get_ok(
    acc: c_packet::CucTimeAccessor,
    cuc_time: cuc_time::Time,
    expected_packet_str: &str) {
    let mut packet = c_packet::Packet::new_alloc(32);
    packet.set_cuc_time_acc(acc, cuc_time).unwrap();
    assert_eq!(packet.dump_str(), expected_packet_str);
    let cuc_time2 = packet.get_cuc_time_acc(acc).unwrap();
    assert_dump_cuc_time(cuc_time2, cuc_time);
}

#[test]
#[allow(non_snake_case)]
fn test_ccsds_c_packet() {
    let CUC_TIME_ACC1 = c_packet::CucTimeAccessor { byte_pos: 16, p_field: cuc_time::L2_TIME_4_3 };
    let CUC_TIME_ACC_L1_4_0 = c_packet::CucTimeAccessor { byte_pos: 16, p_field: cuc_time::L1_TIME_4_0 };
    let CUC_TIME_ACC_L1_4_1 = c_packet::CucTimeAccessor { byte_pos: 16, p_field: cuc_time::L1_TIME_4_1 };
    let CUC_TIME_ACC_L1_4_2 = c_packet::CucTimeAccessor { byte_pos: 16, p_field: cuc_time::L1_TIME_4_2 };
    let CUC_TIME_ACC_L1_4_3 = c_packet::CucTimeAccessor { byte_pos: 16, p_field: cuc_time::L1_TIME_4_3 };
    let CUC_TIME_ACC_L2_4_0 = c_packet::CucTimeAccessor { byte_pos: 16, p_field: cuc_time::L2_TIME_4_0 };
    let CUC_TIME_ACC_L2_4_1 = c_packet::CucTimeAccessor { byte_pos: 16, p_field: cuc_time::L2_TIME_4_1 };
    let CUC_TIME_ACC_L2_4_2 = c_packet::CucTimeAccessor { byte_pos: 16, p_field: cuc_time::L2_TIME_4_2 };
    let CUC_TIME_ACC_L2_4_3 = c_packet::CucTimeAccessor { byte_pos: 16, p_field: cuc_time::L2_TIME_4_3 };
    let CUC_TIME_ACC_T1_4_0 = c_packet::CucTimeAccessor { byte_pos: 16, p_field: cuc_time::T1_TIME_4_0 };
    let CUC_TIME_ACC_T1_4_1 = c_packet::CucTimeAccessor { byte_pos: 16, p_field: cuc_time::T1_TIME_4_1 };
    let CUC_TIME_ACC_T1_4_2 = c_packet::CucTimeAccessor { byte_pos: 16, p_field: cuc_time::T1_TIME_4_2 };
    let CUC_TIME_ACC_T1_4_3 = c_packet::CucTimeAccessor { byte_pos: 16, p_field: cuc_time::T1_TIME_4_3 };
    let CUC_TIME_ACC_T2_4_0 = c_packet::CucTimeAccessor { byte_pos: 16, p_field: cuc_time::T2_TIME_4_0 };
    let CUC_TIME_ACC_T2_4_1 = c_packet::CucTimeAccessor { byte_pos: 16, p_field: cuc_time::T2_TIME_4_1 };
    let CUC_TIME_ACC_T2_4_2 = c_packet::CucTimeAccessor { byte_pos: 16, p_field: cuc_time::T2_TIME_4_2 };
    let CUC_TIME_ACC_T2_4_3 = c_packet::CucTimeAccessor { byte_pos: 16, p_field: cuc_time::T2_TIME_4_3 };
    let CUC_TIME_ACC_ERR1 = c_packet::CucTimeAccessor { byte_pos: 16, p_field: 0 };
    let CUC_TIME_ACC_ERR2 = c_packet::CucTimeAccessor { byte_pos: 25, p_field: cuc_time::L2_TIME_4_3 };
    let CUC_TIME_ACC_ERR3 = c_packet::CucTimeAccessor { byte_pos: 26, p_field: cuc_time::T2_TIME_4_3 };
    let CUC_TIME_ACC_ERR4 = c_packet::CucTimeAccessor { byte_pos: 16, p_field: cuc_time::L2_TIME_4_3 };

    // some basic packet tests
    let packet = c_packet::Packet::new();
    assert_eq!(packet.dump_str(), "
0000 00 00 00 00 00 00 00                            .......");
    let tm_packet = c_packet::TMpacket::new();
    assert_eq!(tm_packet.dump_str(), "
0000 00 00 00 00 00 00 00                            .......");
    let tc_packet = c_packet::TCpacket::new();
    assert_eq!(tc_packet.dump_str(), "
0000 00 00 00 00 00 00 00                            .......");
    // test access of CUC time
    let mut packet = c_packet::Packet::new_alloc(32);
    assert_eq!(packet.dump_str(), "
0000 00 00 00 00 00 19 00 00 00 00 00 00 00 00 00 00 ................
0010 00 00 00 00 00 00 00 00 00 00 00 00 00 00 00 00 ................");
    let cuc_time = cuc_time::Time::new_l2_time_4_3_init(1, 2, 3, 4, 5, 6, 7);
    assert_dump_cuc_time(cuc_time,
        cuc_time::Time::new_l2_time_4_3_init(1, 2, 3, 4, 5, 6, 7));
    packet.set_cuc_time_acc(CUC_TIME_ACC1, cuc_time).unwrap();
    assert_eq!(packet.dump_str(), "
0000 00 00 00 00 00 19 00 00 00 00 00 00 00 00 00 00 ................
0010 2f 01 02 03 04 05 06 07 00 00 00 00 00 00 00 00 /...............");
    let cuc_time = packet.get_cuc_time_acc(CUC_TIME_ACC1).unwrap();
    assert_dump_cuc_time(cuc_time,
        cuc_time::Time::new_l2_time_4_3_init(1, 2, 3, 4, 5, 6, 7));
    // test acces of all types of CUC time
    test_cuc_time_set_get_ok(
        CUC_TIME_ACC_L1_4_0,
        cuc_time::Time::new_l1_time_4_0_init(1, 2, 3, 4), "
0000 00 00 00 00 00 19 00 00 00 00 00 00 00 00 00 00 ................
0010 1c 01 02 03 04 00 00 00 00 00 00 00 00 00 00 00 ................");
    test_cuc_time_set_get_ok(
        CUC_TIME_ACC_L1_4_1,
        cuc_time::Time::new_l1_time_4_1_init(1, 2, 3, 4, 5), "
0000 00 00 00 00 00 19 00 00 00 00 00 00 00 00 00 00 ................
0010 1d 01 02 03 04 05 00 00 00 00 00 00 00 00 00 00 ................");
    test_cuc_time_set_get_ok(
        CUC_TIME_ACC_L1_4_2,
        cuc_time::Time::new_l1_time_4_2_init(1, 2, 3, 4, 5, 6), "
0000 00 00 00 00 00 19 00 00 00 00 00 00 00 00 00 00 ................
0010 1e 01 02 03 04 05 06 00 00 00 00 00 00 00 00 00 ................");
    test_cuc_time_set_get_ok(
        CUC_TIME_ACC_L1_4_3,
        cuc_time::Time::new_l1_time_4_3_init(1, 2, 3, 4, 5, 6, 7), "
0000 00 00 00 00 00 19 00 00 00 00 00 00 00 00 00 00 ................
0010 1f 01 02 03 04 05 06 07 00 00 00 00 00 00 00 00 ................");
    test_cuc_time_set_get_ok(
        CUC_TIME_ACC_L2_4_0,
        cuc_time::Time::new_l2_time_4_0_init(1, 2, 3, 4), "
0000 00 00 00 00 00 19 00 00 00 00 00 00 00 00 00 00 ................
0010 2c 01 02 03 04 00 00 00 00 00 00 00 00 00 00 00 ,...............");
    test_cuc_time_set_get_ok(
        CUC_TIME_ACC_L2_4_1,
        cuc_time::Time::new_l2_time_4_1_init(1, 2, 3, 4, 5), "
0000 00 00 00 00 00 19 00 00 00 00 00 00 00 00 00 00 ................
0010 2d 01 02 03 04 05 00 00 00 00 00 00 00 00 00 00 -...............");
    test_cuc_time_set_get_ok(
        CUC_TIME_ACC_L2_4_2,
        cuc_time::Time::new_l2_time_4_2_init(1, 2, 3, 4, 5, 6), "
0000 00 00 00 00 00 19 00 00 00 00 00 00 00 00 00 00 ................
0010 2e 01 02 03 04 05 06 00 00 00 00 00 00 00 00 00 ................");
    test_cuc_time_set_get_ok(
        CUC_TIME_ACC_L2_4_3,
        cuc_time::Time::new_l2_time_4_3_init(1, 2, 3, 4, 5, 6, 7), "
0000 00 00 00 00 00 19 00 00 00 00 00 00 00 00 00 00 ................
0010 2f 01 02 03 04 05 06 07 00 00 00 00 00 00 00 00 /...............");
    test_cuc_time_set_get_ok(
        CUC_TIME_ACC_T1_4_0,
        cuc_time::Time::new_t1_time_4_0_init(1, 2, 3, 4), "
0000 00 00 00 00 00 19 00 00 00 00 00 00 00 00 00 00 ................
0010 01 02 03 04 00 00 00 00 00 00 00 00 00 00 00 00 ................");
    test_cuc_time_set_get_ok(
        CUC_TIME_ACC_T1_4_1,
        cuc_time::Time::new_t1_time_4_1_init(1, 2, 3, 4, 5), "
0000 00 00 00 00 00 19 00 00 00 00 00 00 00 00 00 00 ................
0010 01 02 03 04 05 00 00 00 00 00 00 00 00 00 00 00 ................");
    test_cuc_time_set_get_ok(
        CUC_TIME_ACC_T1_4_2,
        cuc_time::Time::new_t1_time_4_2_init(1, 2, 3, 4, 5, 6), "
0000 00 00 00 00 00 19 00 00 00 00 00 00 00 00 00 00 ................
0010 01 02 03 04 05 06 00 00 00 00 00 00 00 00 00 00 ................");
    test_cuc_time_set_get_ok(
        CUC_TIME_ACC_T1_4_3,
        cuc_time::Time::new_t1_time_4_3_init(1, 2, 3, 4, 5, 6, 7), "
0000 00 00 00 00 00 19 00 00 00 00 00 00 00 00 00 00 ................
0010 01 02 03 04 05 06 07 00 00 00 00 00 00 00 00 00 ................");
    test_cuc_time_set_get_ok(
        CUC_TIME_ACC_T2_4_0,
        cuc_time::Time::new_t2_time_4_0_init(1, 2, 3, 4), "
0000 00 00 00 00 00 19 00 00 00 00 00 00 00 00 00 00 ................
0010 01 02 03 04 00 00 00 00 00 00 00 00 00 00 00 00 ................");
    test_cuc_time_set_get_ok(
        CUC_TIME_ACC_T2_4_1,
        cuc_time::Time::new_t2_time_4_1_init(1, 2, 3, 4, 5), "
0000 00 00 00 00 00 19 00 00 00 00 00 00 00 00 00 00 ................
0010 01 02 03 04 05 00 00 00 00 00 00 00 00 00 00 00 ................");
    test_cuc_time_set_get_ok(
        CUC_TIME_ACC_T2_4_2,
        cuc_time::Time::new_t2_time_4_2_init(1, 2, 3, 4, 5, 6), "
0000 00 00 00 00 00 19 00 00 00 00 00 00 00 00 00 00 ................
0010 01 02 03 04 05 06 00 00 00 00 00 00 00 00 00 00 ................");
    test_cuc_time_set_get_ok(
        CUC_TIME_ACC_T2_4_3,
        cuc_time::Time::new_t2_time_4_3_init(1, 2, 3, 4, 5, 6, 7), "
0000 00 00 00 00 00 19 00 00 00 00 00 00 00 00 00 00 ................
0010 01 02 03 04 05 06 07 00 00 00 00 00 00 00 00 00 ................");
    // test CUC time access errors
    test_cuc_time_set_error(CUC_TIME_ACC_ERR1, cuc_time::Time::new_l2_time_4_3(), ErrorKind::InvalidFormatCode);
    test_cuc_time_set_error(CUC_TIME_ACC_ERR2, cuc_time::Time::new_l2_time_4_3(), ErrorKind::RangeError);
    test_cuc_time_set_error(CUC_TIME_ACC_ERR3, cuc_time::Time::new_t2_time_4_3(), ErrorKind::RangeError);
    test_cuc_time_get_error(CUC_TIME_ACC_ERR1, ErrorKind::InvalidFormatCode);
    test_cuc_time_get_error(CUC_TIME_ACC_ERR2, ErrorKind::RangeError);
    test_cuc_time_get_error(CUC_TIME_ACC_ERR3, ErrorKind::RangeError);
    test_cuc_time_get_error(CUC_TIME_ACC_ERR4, ErrorKind::InvalidFormatCode);
}
