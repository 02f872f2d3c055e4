use isochronous_finite_fields::{extend_bit, GF};

#[test]
fn test_multiplicative_inverse() {
    assert_eq!(GF(0x01).multiplicative_inverse(), GF(0x01));
    assert_eq!(GF(0x02).multiplicative_inverse(), GF(0x8d));
    assert_eq!(GF(0x03).multiplicative_inverse(), GF(0xf6));
    assert_eq!(GF(0x04).multiplicative_inverse(), GF(0xcb));
    assert_eq!(GF(0x05).multiplicative_inverse(), GF(0x52));
    assert_eq!(GF(0x06).multiplicative_inverse(), GF(0x7b));
    assert_eq!(GF(0xff).multiplicative_inverse(), GF(0x1c));
}

#[test]
fn test_shift_behaviour() {
    let mut x: i8 = 1;
    x <<= 7;
    assert_eq!(x as u8, 0b1000_0000 as u8);
    x = x.wrapping_shr(7);
    assert_eq!(x as u8, 0b1111_1111);

    let mut x: i8 = 0;
    x <<= 7;
    assert_eq!(x as u8, 0b0000_0000 as u8);
    x = x.wrapping_shr(7);
    assert_eq!(x as u8, 0b0000_0000 as u8);
}

#[test]
fn test_extend_bit() {
    assert_eq!(extend_bit(1), 0xff);
    assert_eq!(extend_bit(0), 0x00);
    assert_eq!(extend_bit(0b0000_0001), 0xff);
    assert_eq!(extend_bit(0b0000_0000), 0x00);
    assert_eq!(extend_bit(0b1000_0100), 0x00);
    assert_eq!(extend_bit(0b0100_0100), 0x00);
    assert_eq!(extend_bit(0b1100_0101), 0xff);
}

#[test]
fn multiplication_example_wikipedia() {
    let mut x = GF(0x53);
    x.mul_assign(GF(0xCA));
    assert_eq!(x, GF(0x01))
}

#[test]
fn multiplication_example_fips197_4_2() {
    let mut x = GF(0x57);
    x.mul_assign(GF(0x83));
    assert_eq!(x, GF(0xc1))
}

#[test]
fn multiplication_example_fips197_4_2_1() {
    assert_eq!(GF(0x57).mul(GF(0x01)), GF(0x57));
    assert_eq!(GF(0x57).mul(GF(0x02)), GF(0xae));
    assert_eq!(GF(0x57).mul(GF(0x04)), GF(0x47));
    assert_eq!(GF(0x57).mul(GF(0x08)), GF(0x8e));
    assert_eq!(GF(0x57).mul(GF(0x10)), GF(0x07));

    let mut x = GF(0x57);
    x.mul_assign(GF(0x13));
    assert_eq!(x, GF(0xfe))
}

#[test]
fn zero_addition() {
    assert_eq!(GF(0x53).add(GF(0x0)), GF(0x53));
}

#[test]
fn zero_subtraction() {
    assert_eq!(GF(0x53).sub(GF(0x0)), GF(0x53));
}

#[test]
fn simple_addition_assign() {
    let mut x = GF(0x22);
    x.add_assign(GF(0x81));
    assert_eq!(x, GF(0xa3))
}

#[test]
fn simple_subtraction_assign() {
    let mut x = GF(0x93);
    x.sub_assign(GF(0x5b));
    assert_eq!(x, GF(0xc8))
}
