use isochronous_finite_fields::GF;

#[test]
fn addition_examples() {
    assert_eq!(GF(5).add(GF(12)), GF(9));
    assert_eq!(GF(32).sub(GF(219)), GF(251));
}

#[test]
fn multiplication_example_reference_vector() {
    assert_eq!(GF(175).mul(GF(47)), GF(83));
}

#[test]
fn inverse_reference_vectors() {
    assert_eq!(GF(110).multiplicative_inverse(), GF(33));
    assert_eq!(GF(110).mul(GF(33)), GF(1));
    assert_eq!(GF(0x02).multiplicative_inverse(), GF(0x8d));
    assert_eq!(GF(0xff).multiplicative_inverse(), GF(0x1c));
    assert_eq!(GF(0x01).multiplicative_inverse(), GF(0x01));
}

#[test]
fn inverse_of_zero_is_zero() {
    assert_eq!(GF(0).multiplicative_inverse(), GF(0));
}

#[test]
fn closure_all_bytes() {
    for a in 0..=255u8 {
        let inv = GF(a).multiplicative_inverse();
        assert_eq!(GF(inv.0), inv);
        for b in 0..=255u8 {
            let sum = GF(a).add(GF(b));
            let product = GF(a).mul(GF(b));
            assert_eq!(GF(sum.0), sum);
            assert_eq!(GF(product.0), product);
        }
    }
}

#[test]
fn addition_group_laws_exhaustive() {
    for a in 0..=255u8 {
        assert_eq!(GF(a).add(GF(a)), GF(0));
        assert_eq!(GF(a).add(GF(0)), GF(a));
        for b in 0..=255u8 {
            assert_eq!(GF(a).add(GF(b)), GF(b).add(GF(a)));
        }
    }
}

#[test]
fn addition_associativity_sampled() {
    for a in (0..=255u8).step_by(5) {
        for b in (0..=255u8).step_by(7) {
            for c in (0..=255u8).step_by(11) {
                assert_eq!(GF(a).add(GF(b)).add(GF(c)), GF(a).add(GF(b).add(GF(c))));
            }
        }
    }
}

#[test]
fn subtraction_equals_addition_exhaustive() {
    for a in 0..=255u8 {
        for b in 0..=255u8 {
            assert_eq!(GF(a).sub(GF(b)), GF(a).add(GF(b)));
        }
    }
}

#[test]
fn multiplication_identity_and_absorption_exhaustive() {
    for a in 0..=255u8 {
        assert_eq!(GF(a).mul(GF(1)), GF(a));
        assert_eq!(GF(1).mul(GF(a)), GF(a));
        assert_eq!(GF(a).mul(GF(0)), GF(0));
        assert_eq!(GF(0).mul(GF(a)), GF(0));
    }
}

#[test]
fn multiplication_commutativity_exhaustive() {
    for a in 0..=255u8 {
        for b in 0..=255u8 {
            assert_eq!(GF(a).mul(GF(b)), GF(b).mul(GF(a)));
        }
    }
}

#[test]
fn multiplication_associativity_sampled() {
    for a in (0..=255u8).step_by(5) {
        for b in (0..=255u8).step_by(7) {
            for c in (0..=255u8).step_by(11) {
                assert_eq!(GF(a).mul(GF(b)).mul(GF(c)), GF(a).mul(GF(b).mul(GF(c))));
            }
        }
    }
}

#[test]
fn distributivity_sampled() {
    for a in (0..=255u8).step_by(5) {
        for b in (0..=255u8).step_by(7) {
            for c in (0..=255u8).step_by(11) {
                assert_eq!(
                    GF(a).mul(GF(b).add(GF(c))),
                    GF(a).mul(GF(b)).add(GF(a).mul(GF(c)))
                );
            }
        }
    }
}

#[test]
fn inverse_round_trip_exhaustive() {
    for a in 1..=255u8 {
        let inv = GF(a).multiplicative_inverse();
        assert_ne!(inv, GF(0));
        assert_eq!(GF(a).mul(inv), GF(1));
    }
}

#[test]
fn from_byte() {
    assert_eq!(GF::from(7u8), GF(7));
    assert_eq!(GF::from(0u8), GF(0));
    assert_eq!(GF::from(255u8), GF(255));
}
