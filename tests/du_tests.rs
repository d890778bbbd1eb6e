use space_rust_library::du::{BigUnsignedAccessor, BitAccessor, ByteAccessor, DUintf, UnsignedAccessor, DU};

#[test]
#[allow(non_snake_case)]
fn test_util_du() {
    let UINT_ACC1 = UnsignedAccessor { byte_pos: 0, byte_length: 1 };
    let UINT_ACC2 = UnsignedAccessor { byte_pos: 0, byte_length: 2 };
    let UINT_ACC3 = UnsignedAccessor { byte_pos: 0, byte_length: 3 };
    let UINT_ACC4 = UnsignedAccessor { byte_pos: 0, byte_length: 4 };
    let BUINT_ACC1 = BigUnsignedAccessor { byte_pos: 0, byte_length: 1 };
    let BUINT_ACC2 = BigUnsignedAccessor { byte_pos: 0, byte_length: 2 };
    let BUINT_ACC3 = BigUnsignedAccessor { byte_pos: 0, byte_length: 3 };
    let BUINT_ACC4 = BigUnsignedAccessor { byte_pos: 0, byte_length: 4 };
    let BUINT_ACC5 = BigUnsignedAccessor { byte_pos: 0, byte_length: 5 };
    let BUINT_ACC6 = BigUnsignedAccessor { byte_pos: 0, byte_length: 6 };
    let BUINT_ACC7 = BigUnsignedAccessor { byte_pos: 0, byte_length: 7 };
    let BUINT_ACC8 = BigUnsignedAccessor { byte_pos: 0, byte_length: 8 };
    let BIT_ACC1 = BitAccessor { bit_pos: 4, bit_length: 1 };
    let BIT_ACC2 = BitAccessor { bit_pos: 5, bit_length: 3 };
    let BIT_ACC3 = BitAccessor { bit_pos: 12, bit_length: 8 };
    let BIT_ACC4 = BitAccessor { bit_pos: 20, bit_length: 16 };
    let BYTE_ACC1 = ByteAccessor { byte_pos: 5, byte_length: 4 };

    let txt = "0123456789 hihihi huhuhu";

    let mut du1 = DU::new();
    assert_eq!(du1.dump_str(), "EMPTY");
    du1.resize(10);
    assert_eq!(du1.dump_str(), "
0000 00 00 00 00 00 00 00 00 00 00                   ..........");
    *du1.at_mut(0) = 0x30;
    *du1.at_mut(1) = 0x31;
    *du1.at_mut(2) = 0x32;
    *du1.at_mut(3) = 0x33;
    *du1.at_mut(4) = 0x34;
    *du1.at_mut(5) = 0x35;
    *du1.at_mut(6) = 0x36;
    *du1.at_mut(7) = 0x37;
    *du1.at_mut(8) = 0x38;
    *du1.at_mut(9) = 0x39;
    assert_eq!(du1.dump_str(), "
0000 30 31 32 33 34 35 36 37 38 39                   0123456789");
    assert_eq!(du1[0], 0x30);
    assert_eq!(du1[1], 0x31);
    assert_eq!(du1[2], 0x32);
    assert_eq!(du1[3], 0x33);
    assert_eq!(du1[4], 0x34);
    assert_eq!(du1[5], 0x35);
    assert_eq!(du1[6], 0x36);
    assert_eq!(du1[7], 0x37);
    assert_eq!(du1[8], 0x38);
    assert_eq!(du1[9], 0x39);

    let vec2 = du1.buffer_read_only().to_vec();
    let mut du2 = DU::new_clone(&vec2);
    assert_eq!(du2.dump_str(), "
0000 30 31 32 33 34 35 36 37 38 39                   0123456789");
    *du2.at_mut(0) = 0x41;
    *du2.at_mut(1) = 0x42;
    *du2.at_mut(2) = 0x43;
    *du2.at_mut(3) = 0x44;
    *du2.at_mut(4) = 0x45;
    *du2.at_mut(5) = 0x46;
    *du2.at_mut(6) = 0x47;
    *du2.at_mut(7) = 0x48;
    *du2.at_mut(8) = 0x49;
    *du2.at_mut(9) = 0x4a;
    assert_eq!(du2.dump_str(), "
0000 41 42 43 44 45 46 47 48 49 4a                   ABCDEFGHIJ");
    assert_eq!(vec2.len(), 10);
    assert_eq!(vec2[0], 0x30);
    assert_eq!(vec2[1], 0x31);
    assert_eq!(vec2[2], 0x32);
    assert_eq!(vec2[3], 0x33);
    assert_eq!(vec2[4], 0x34);
    assert_eq!(vec2[5], 0x35);
    assert_eq!(vec2[6], 0x36);
    assert_eq!(vec2[7], 0x37);
    assert_eq!(vec2[8], 0x38);
    assert_eq!(vec2[9], 0x39);

    let du3 = DU::new_alloc(0);
    assert_eq!(du3.dump_str(), "EMPTY");
    let mut du3 = DU::new_alloc(10);
    assert_eq!(du3.dump_str(), "
0000 00 00 00 00 00 00 00 00 00 00                   ..........");
    *du3.at_mut(0) = 0x30;
    *du3.at_mut(1) = 0x31;
    *du3.at_mut(2) = 0x32;
    *du3.at_mut(3) = 0x33;
    *du3.at_mut(4) = 0x34;
    *du3.at_mut(5) = 0x35;
    *du3.at_mut(6) = 0x36;
    *du3.at_mut(7) = 0x37;
    *du3.at_mut(8) = 0x38;
    *du3.at_mut(9) = 0x39;
    assert_eq!(du3.dump_str(), "
0000 30 31 32 33 34 35 36 37 38 39                   0123456789");
    assert_eq!(du3[0], 0x30);
    assert_eq!(du3[1], 0x31);
    assert_eq!(du3[2], 0x32);
    assert_eq!(du3[3], 0x33);
    assert_eq!(du3[4], 0x34);
    assert_eq!(du3[5], 0x35);
    assert_eq!(du3[6], 0x36);
    assert_eq!(du3[7], 0x37);
    assert_eq!(du3[8], 0x38);
    assert_eq!(du3[9], 0x39);

    let vec4 = vec2;
    let mut du4 = DU::new_owner(vec4);
    assert_eq!(du4.dump_str(), "
0000 30 31 32 33 34 35 36 37 38 39                   0123456789");
    *du4.at_mut(0) = 0x41;
    *du4.at_mut(1) = 0x42;
    *du4.at_mut(2) = 0x43;
    *du4.at_mut(3) = 0x44;
    *du4.at_mut(4) = 0x45;
    *du4.at_mut(5) = 0x46;
    *du4.at_mut(6) = 0x47;
    *du4.at_mut(7) = 0x48;
    *du4.at_mut(8) = 0x49;
    *du4.at_mut(9) = 0x4a;
    assert_eq!(du4.dump_str(), "
0000 41 42 43 44 45 46 47 48 49 4a                   ABCDEFGHIJ");

    let du5 = DU::new_read_only(txt.as_bytes());
    assert_eq!(du5.dump_str(), "
0000 30 31 32 33 34 35 36 37 38 39 20 68 69 68 69 68 0123456789 hihih
0010 69 20 68 75 68 75 68 75                         i huhuhu");
    assert_eq!(du5[0], 0x30);
    assert_eq!(du5[1], 0x31);
    assert_eq!(du5[2], 0x32);
    assert_eq!(du5[3], 0x33);
    assert_eq!(du5[4], 0x34);
    assert_eq!(du5[5], 0x35);
    assert_eq!(du5[6], 0x36);
    assert_eq!(du5[7], 0x37);
    assert_eq!(du5[8], 0x38);
    assert_eq!(du5[9], 0x39);

    let mut array6: [u8; 10] = [0; 10];
    // sub-scope to avoid life cycle conflict (read-only + read-write)
    {
        let mut du6 = DU::new_read_write(&mut array6[..]);
        assert_eq!(du6.dump_str(), "
0000 00 00 00 00 00 00 00 00 00 00                   ..........");
        *du6.at_mut(0) = 0x41;
        *du6.at_mut(1) = 0x42;
        *du6.at_mut(2) = 0x43;
        *du6.at_mut(3) = 0x44;
        *du6.at_mut(4) = 0x45;
        *du6.at_mut(5) = 0x46;
        *du6.at_mut(6) = 0x47;
        *du6.at_mut(7) = 0x48;
        *du6.at_mut(8) = 0x49;
        *du6.at_mut(9) = 0x4a;
        assert_eq!(du6.dump_str(), "
0000 41 42 43 44 45 46 47 48 49 4a                   ABCDEFGHIJ");
    }
    assert_eq!(array6[0], 0x41);
    assert_eq!(array6[1], 0x42);
    assert_eq!(array6[2], 0x43);
    assert_eq!(array6[3], 0x44);
    assert_eq!(array6[4], 0x45);
    assert_eq!(array6[5], 0x46);
    assert_eq!(array6[6], 0x47);
    assert_eq!(array6[7], 0x48);
    assert_eq!(array6[8], 0x49);
    assert_eq!(array6[9], 0x4a);

    let mut du9 = DU::new_owner(String::from(txt).into_bytes());
    assert_eq!(du9.dump_str(), "
0000 30 31 32 33 34 35 36 37 38 39 20 68 69 68 69 68 0123456789 hihih
0010 69 20 68 75 68 75 68 75                         i huhuhu");
    assert_eq!(du9[0], 48);
    *du9.at_mut(0) = 64;
    assert_eq!(du9[0], 64);
    assert_eq!(du9.dump_str(), "
0000 40 31 32 33 34 35 36 37 38 39 20 68 69 68 69 68 @123456789 hihih
0010 69 20 68 75 68 75 68 75                         i huhuhu");
    du9.resize(0x20);
    assert_eq!(du9.dump_str(), "
0000 40 31 32 33 34 35 36 37 38 39 20 68 69 68 69 68 @123456789 hihih
0010 69 20 68 75 68 75 68 75 00 00 00 00 00 00 00 00 i huhuhu........");

    let mut val = du9.get_unsigned_acc(UINT_ACC1).unwrap();
    assert_eq!(val, 64);
    val = du9.get_unsigned_acc(UINT_ACC2).unwrap();
    assert_eq!(val, 16433);
    val = du9.get_unsigned_acc(UINT_ACC3).unwrap();
    assert_eq!(val, 4206898);
    val = du9.get_unsigned_acc(UINT_ACC4).unwrap();
    assert_eq!(val, 1076965939);

    du9.set_unsigned_acc(UINT_ACC1, 1).unwrap();
    assert_eq!(du9.dump_str(), "
0000 01 31 32 33 34 35 36 37 38 39 20 68 69 68 69 68 .123456789 hihih
0010 69 20 68 75 68 75 68 75 00 00 00 00 00 00 00 00 i huhuhu........");
    du9.set_unsigned_acc(UINT_ACC2, 513).unwrap();
    assert_eq!(du9.dump_str(), "
0000 02 01 32 33 34 35 36 37 38 39 20 68 69 68 69 68 ..23456789 hihih
0010 69 20 68 75 68 75 68 75 00 00 00 00 00 00 00 00 i huhuhu........");
    du9.set_unsigned_acc(UINT_ACC3, 197121).unwrap();
    assert_eq!(du9.dump_str(), "
0000 03 02 01 33 34 35 36 37 38 39 20 68 69 68 69 68 ...3456789 hihih
0010 69 20 68 75 68 75 68 75 00 00 00 00 00 00 00 00 i huhuhu........");
    du9.set_unsigned_acc(UINT_ACC4, 67305985).unwrap();
    assert_eq!(du9.dump_str(), "
0000 04 03 02 01 34 35 36 37 38 39 20 68 69 68 69 68 ....456789 hihih
0010 69 20 68 75 68 75 68 75 00 00 00 00 00 00 00 00 i huhuhu........");

    let mut bval = du9.get_big_unsigned_acc(BUINT_ACC1).unwrap();
    assert_eq!(bval, 4);
    bval = du9.get_big_unsigned_acc(BUINT_ACC2).unwrap();
    assert_eq!(bval, 1027);
    bval = du9.get_big_unsigned_acc(BUINT_ACC3).unwrap();
    assert_eq!(bval, 262914);
    bval = du9.get_big_unsigned_acc(BUINT_ACC4).unwrap();
    assert_eq!(bval, 67305985);
    bval = du9.get_big_unsigned_acc(BUINT_ACC5).unwrap();
    assert_eq!(bval, 17230332212);
    bval = du9.get_big_unsigned_acc(BUINT_ACC6).unwrap();
    assert_eq!(bval, 4410965046325);
    bval = du9.get_big_unsigned_acc(BUINT_ACC7).unwrap();
    assert_eq!(bval, 1129207051859254);
    bval = du9.get_big_unsigned_acc(BUINT_ACC8).unwrap();
    assert_eq!(bval, 289077005275969079);

    du9.set_big_unsigned_acc(BUINT_ACC1, 1).unwrap();
    assert_eq!(du9.dump_str(), "
0000 01 03 02 01 34 35 36 37 38 39 20 68 69 68 69 68 ....456789 hihih
0010 69 20 68 75 68 75 68 75 00 00 00 00 00 00 00 00 i huhuhu........");
    du9.set_big_unsigned_acc(BUINT_ACC2, 513).unwrap();
    assert_eq!(du9.dump_str(), "
0000 02 01 02 01 34 35 36 37 38 39 20 68 69 68 69 68 ....456789 hihih
0010 69 20 68 75 68 75 68 75 00 00 00 00 00 00 00 00 i huhuhu........");
    du9.set_big_unsigned_acc(BUINT_ACC3, 197121).unwrap();
    assert_eq!(du9.dump_str(), "
0000 03 02 01 01 34 35 36 37 38 39 20 68 69 68 69 68 ....456789 hihih
0010 69 20 68 75 68 75 68 75 00 00 00 00 00 00 00 00 i huhuhu........");
    du9.set_big_unsigned_acc(BUINT_ACC4, 67305985).unwrap();
    assert_eq!(du9.dump_str(), "
0000 04 03 02 01 34 35 36 37 38 39 20 68 69 68 69 68 ....456789 hihih
0010 69 20 68 75 68 75 68 75 00 00 00 00 00 00 00 00 i huhuhu........");
    du9.set_big_unsigned_acc(BUINT_ACC5, 21542142465).unwrap();
    assert_eq!(du9.dump_str(), "
0000 05 04 03 02 01 35 36 37 38 39 20 68 69 68 69 68 .....56789 hihih
0010 69 20 68 75 68 75 68 75 00 00 00 00 00 00 00 00 i huhuhu........");
    du9.set_big_unsigned_acc(BUINT_ACC6, 6618611909121).unwrap();
    assert_eq!(du9.dump_str(), "
0000 06 05 04 03 02 01 36 37 38 39 20 68 69 68 69 68 ......6789 hihih
0010 69 20 68 75 68 75 68 75 00 00 00 00 00 00 00 00 i huhuhu........");
    du9.set_big_unsigned_acc(BUINT_ACC7, 1976943448883713).unwrap();
    assert_eq!(du9.dump_str(), "
0000 07 06 05 04 03 02 01 37 38 39 20 68 69 68 69 68 .......789 hihih
0010 69 20 68 75 68 75 68 75 00 00 00 00 00 00 00 00 i huhuhu........");
    du9.set_big_unsigned_acc(BUINT_ACC8, 578437695752307201).unwrap();
    assert_eq!(du9.dump_str(), "
0000 08 07 06 05 04 03 02 01 38 39 20 68 69 68 69 68 ........89 hihih
0010 69 20 68 75 68 75 68 75 00 00 00 00 00 00 00 00 i huhuhu........");

    // temporary force a proper contents in the buffer
    *du9.at_mut(0) = 0x04;
    *du9.at_mut(1) = 0x03;
    *du9.at_mut(2) = 0x02;
    *du9.at_mut(3) = 0x01;
    *du9.at_mut(4) = 0x34;
    *du9.at_mut(5) = 0x35;
    *du9.at_mut(6) = 0x36;
    *du9.at_mut(7) = 0x37;

    val = du9.get_bits_acc(BIT_ACC1).unwrap();
    assert_eq!(val, 0);
    val = du9.get_bits_acc(BIT_ACC2).unwrap();
    assert_eq!(val, 4);
    val = du9.get_bits_acc(BIT_ACC3).unwrap();
    assert_eq!(val, 48);
    val = du9.get_bits_acc(BIT_ACC4).unwrap();
    assert_eq!(val, 8211);

    du9.set_bits_acc(BIT_ACC1, 1).unwrap();
    assert_eq!(du9.dump_str(), "
0000 0c 03 02 01 34 35 36 37 38 39 20 68 69 68 69 68 ....456789 hihih
0010 69 20 68 75 68 75 68 75 00 00 00 00 00 00 00 00 i huhuhu........");
    du9.set_bits_acc(BIT_ACC2, 3).unwrap();
    assert_eq!(du9.dump_str(), "
0000 0b 03 02 01 34 35 36 37 38 39 20 68 69 68 69 68 ....456789 hihih
0010 69 20 68 75 68 75 68 75 00 00 00 00 00 00 00 00 i huhuhu........");
    du9.set_bits_acc(BIT_ACC3, 171).unwrap();
    assert_eq!(du9.dump_str(), "
0000 0b 0a b2 01 34 35 36 37 38 39 20 68 69 68 69 68 ....456789 hihih
0010 69 20 68 75 68 75 68 75 00 00 00 00 00 00 00 00 i huhuhu........");
    du9.set_bits_acc(BIT_ACC4, 39030).unwrap();
    assert_eq!(du9.dump_str(), "
0000 0b 0a b9 87 64 35 36 37 38 39 20 68 69 68 69 68 ....d56789 hihih
0010 69 20 68 75 68 75 68 75 00 00 00 00 00 00 00 00 i huhuhu........");

    // sub-scope to avoid life cycle conflict (read-only + read-write)
    {
        let bytes = du9.get_bytes_acc(BYTE_ACC1).unwrap();
        let du8 = DU::new_read_only(bytes);
        assert_eq!(du8.dump_str(), "
0000 35 36 37 38                                     5678");
    }

    du9.set_bytes_acc(BYTE_ACC1, "ABCD".as_bytes()).unwrap();
    assert_eq!(du9.dump_str(), "
0000 0b 0a b9 87 64 41 42 43 44 39 20 68 69 68 69 68 ....dABCD9 hihih
0010 69 20 68 75 68 75 68 75 00 00 00 00 00 00 00 00 i huhuhu........");
}
