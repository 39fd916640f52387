use peresil::bytes::{BytePoint, ParseNumber};
use peresil::{Progress, Status};

#[test]
fn fails_with_too_short_input() {
    let p = BytePoint { offset: 0, s: &[] };

    let expected_u64 = Progress { point: p, status: Status::Failure(()) };
    let expected_i8 = Progress { point: p, status: Status::Failure(()) };

    assert_eq!(p.u64_le(), expected_u64);
    assert_eq!(p.u64_be(), expected_u64);
    assert_eq!(p.i8_le(), expected_i8);
    assert_eq!(p.i8_be(), expected_i8);
}

#[test]
fn parses_ints_correctly() {
    let p = BytePoint { offset: 0, s: &[0x01, 0x02, 0x03, 0x04, 0xD0, 0x0D, 0xF0, 0x0D] };

    assert_eq!(
        p.u64_le(),
        Progress {
            point: BytePoint { offset: 8, s: &[] },
            status: Status::Success(0x0D_F0_0D_D0_04_03_02_01_u64),
        }
    );
    assert_eq!(
        p.i16_le(),
        Progress {
            point: BytePoint { offset: 2, s: &[0x03, 0x04, 0xD0, 0x0D, 0xF0, 0x0D] },
            status: Status::Success(0x02_01_i16),
        }
    );

    assert_eq!(
        p.u64_be(),
        Progress {
            point: BytePoint { offset: 8, s: &[] },
            status: Status::Success(0x01_02_03_04_D0_0D_F0_0D_u64),
        }
    );
    assert_eq!(
        p.i16_be(),
        Progress {
            point: BytePoint { offset: 2, s: &[0x03, 0x04, 0xD0, 0x0D, 0xF0, 0x0D] },
            status: Status::Success(0x01_02_i16),
        }
    );
}

const BYTES: [u8; 17] = [
    0x80, 0x01, 0x02, 0x03, 0x04, 0x05, 0x06, 0x07, 0x08, 0x09, 0x0A, 0x0B, 0x0C, 0x0D, 0x0E, 0xFF,
    0x55,
];

#[test]
fn every_width_moves_by_its_size_and_keeps_the_rest() {
    let p = BytePoint::new(&BYTES);
    assert_eq!(p.u8_le().point.offset, 1);
    assert_eq!(p.u8_le().point.s, &BYTES[1..]);
    assert_eq!(p.u16_be().point.offset, 2);
    assert_eq!(p.u16_be().point.s, &BYTES[2..]);
    assert_eq!(p.u32_le().point.offset, 4);
    assert_eq!(p.i32_be().point.s, &BYTES[4..]);
    assert_eq!(p.u64_le().point.offset, 8);
    assert_eq!(p.i64_be().point.s, &BYTES[8..]);
    assert_eq!(p.u128_le().point.offset, 16);
    assert_eq!(p.i128_be().point.s, &BYTES[16..]);
}

#[test]
fn unsigned_values_agree_with_the_standard_conversions() {
    let p = BytePoint::new(&BYTES);
    assert_eq!(p.u8_le().status, Status::Success(0x80));
    assert_eq!(p.u8_be().status, Status::Success(0x80));
    assert_eq!(p.u16_le().status, Status::Success(0x0180));
    assert_eq!(p.u16_be().status, Status::Success(0x8001));
    assert_eq!(p.u32_le().status, Status::Success(0x0302_0180));
    assert_eq!(p.u32_be().status, Status::Success(0x8001_0203));
    assert_eq!(p.u64_le().status, Status::Success(0x0706_0504_0302_0180));
    assert_eq!(p.u64_be().status, Status::Success(0x8001_0203_0405_0607));
    assert_eq!(
        p.u128_le().status,
        Status::Success(0xFF0E_0D0C_0B0A_0908_0706_0504_0302_0180)
    );
    assert_eq!(
        p.u128_be().status,
        Status::Success(0x8001_0203_0405_0607_0809_0A0B_0C0D_0EFF)
    );
    let mut first16 = [0u8; 16];
    first16.copy_from_slice(&BYTES[..16]);
    assert_eq!(p.u128_le().status, Status::Success(u128::from_le_bytes(first16)));
    assert_eq!(p.u128_be().status, Status::Success(u128::from_be_bytes(first16)));
}

#[test]
fn signed_values_are_twos_complement() {
    let p = BytePoint::new(&BYTES);
    assert_eq!(p.i8_le().status, Status::Success(-128));
    assert_eq!(p.i8_be().status, Status::Success(-128));
    assert_eq!(p.i16_le().status, Status::Success(0x0180));
    assert_eq!(p.i16_be().status, Status::Success(-32767));
    assert_eq!(p.i32_le().status, Status::Success(0x0302_0180));
    assert_eq!(p.i32_be().status, Status::Success(0x8001_0203_u32 as i32));
    assert_eq!(p.i64_le().status, Status::Success(0x0706_0504_0302_0180));
    assert_eq!(p.i64_be().status, Status::Success(0x8001_0203_0405_0607_u64 as i64));
    let mut first16 = [0u8; 16];
    first16.copy_from_slice(&BYTES[..16]);
    assert_eq!(p.i128_le().status, Status::Success(i128::from_le_bytes(first16)));
    assert_eq!(p.i128_be().status, Status::Success(i128::from_be_bytes(first16)));
    assert!(i128::from_le_bytes(first16) < 0);
    assert!(i128::from_be_bytes(first16) < 0);

    let ones = [0xFFu8; 16];
    let p = BytePoint::new(&ones);
    assert_eq!(p.i8_le().status, Status::Success(-1));
    assert_eq!(p.i16_be().status, Status::Success(-1));
    assert_eq!(p.i32_le().status, Status::Success(-1));
    assert_eq!(p.i64_be().status, Status::Success(-1));
    assert_eq!(p.i128_le().status, Status::Success(-1));
    assert_eq!(p.u128_le().status, Status::Success(u128::MAX));

    let least = [0x00u8, 0x00, 0x00, 0x00, 0x00, 0x00, 0x00, 0x80];
    let p = BytePoint::new(&least);
    assert_eq!(p.i64_le().status, Status::Success(i64::MIN));
    assert_eq!(p.i64_be().status, Status::Success(0x80));
    let greatest = [0xFFu8, 0x7F];
    assert_eq!(BytePoint::new(&greatest).i16_le().status, Status::Success(i16::MAX));
}

#[test]
fn byte_orders_are_reversals_of_each_other() {
    let p = BytePoint::new(&BYTES);
    let mut turned = BYTES;
    turned[..8].reverse();
    let q = BytePoint::new(&turned);
    assert_eq!(p.u64_le().status, q.u64_be().status);
    assert_eq!(p.u64_be().status, q.u64_le().status);
    assert_eq!(p.i64_le().status, q.i64_be().status);
    match (p.u32_le().status, p.u32_be().status) {
        (Status::Success(le), Status::Success(be)) => assert_eq!(le, be.swap_bytes()),
        _ => panic!("four bytes were there to read"),
    }
    match (p.i16_le().status, p.i16_be().status) {
        (Status::Success(le), Status::Success(be)) => assert_eq!(le, be.swap_bytes()),
        _ => panic!("two bytes were there to read"),
    }
}

#[test]
fn one_byte_short_fails_where_it_stands() {
    let p = BytePoint { offset: 5, s: &BYTES[..15] };
    assert_eq!(p.u128_le(), Progress { point: p, status: Status::Failure(()) });
    assert_eq!(p.i128_be(), Progress { point: p, status: Status::Failure(()) });
    match p.u128_le() {
        Progress { point, status: Status::Failure(()) } => assert_eq!(point.s, &BYTES[..15]),
        _ => panic!("fifteen bytes are one too few"),
    }
    let p = BytePoint { offset: 5, s: &BYTES[..7] };
    assert_eq!(p.u64_be(), Progress { point: p, status: Status::Failure(()) });
    assert_eq!(p.u32_le().point.offset, 9);
    let p = BytePoint { offset: 5, s: &BYTES[..1] };
    assert_eq!(p.i16_le(), Progress { point: p, status: Status::Failure(()) });
    assert_eq!(p.u8_le().point.offset, 6);
}

#[test]
fn numbers_read_in_sequence() {
    let p = BytePoint::new(&BYTES);
    let first = p.u8_le();
    assert_eq!(first.status, Status::Success(0x80));
    let second = first.point.u16_be();
    assert_eq!(second.status, Status::Success(0x0102));
    let third = second.point.i32_le();
    assert_eq!(third.status, Status::Success(0x0605_0403));
    assert_eq!(third.point.offset, 7);
}
