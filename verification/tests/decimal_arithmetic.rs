use ua_invest_tax::decimal::{add_sub_fits_check, dec_add, dec_mul, dec_sub, mul_fits_check, Dec};

fn dec(m: i64, s: u32) -> Dec {
    Dec::new(m, s)
}

fn largest(scale: u32) -> Dec {
    Dec { negative: false, magnitude: (1u128 << 96) - 1, scale }
}

#[test]
fn exact_sums_and_products() {
    assert_eq!(dec_add(dec(15, 1), dec(225, 2)), dec(375, 2));
    assert_eq!(dec_sub(dec(1, 0), dec(25, 1)), dec(-15, 1));
    assert_eq!(dec_mul(dec(15, 1), dec(2, 1)), dec(30, 2));
    assert_eq!(dec_mul(dec(-3, 0), dec(4, 0)), dec(-12, 0));
    // a zero operand gives back the other one
    assert_eq!(dec_add(dec(0, 3), dec(15, 1)), dec(15, 1));
    assert_eq!(dec_sub(dec(0, 3), dec(15, 1)), dec(-15, 1));
    // a zero product has scale 0
    assert_eq!(dec_mul(dec(0, 3), dec(15, 1)), dec(0, 0));
}

#[test]
fn rounded_but_not_overflowing() {
    // the exact sum needs 97 bits at scale 2: it is rounded, not refused
    assert!(add_sub_fits_check(largest(1), dec(5, 2), false));
    let s = dec_add(largest(1), dec(5, 2));
    assert!(s.scale <= 1);
    // 28 digits after the point times 0.5: rounded to 28 digits
    assert!(mul_fits_check(dec(3, 28), dec(5, 1)));
    let p = dec_mul(dec(3, 28), dec(5, 1));
    assert_eq!(p.scale, 28);
    assert_eq!(p.magnitude, 2);
}

#[test]
fn overflowing_operations() {
    assert!(!add_sub_fits_check(largest(0), dec(1, 0), false));
    assert!(!add_sub_fits_check(Dec { negative: true, ..largest(0) }, dec(1, 0), true));
    assert!(add_sub_fits_check(largest(0), dec(1, 0), true));
    assert!(!mul_fits_check(largest(0), dec(10, 0)));
    assert!(mul_fits_check(largest(0), dec(1, 0)));
}
