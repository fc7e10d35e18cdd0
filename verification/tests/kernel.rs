use perlin1d::{smooth, SCALE};

const S: i64 = SCALE as i64;

/// Converts a real number to the library's fixed-point representation.
fn fx(v: f64) -> i64 {
    (v * SCALE as f64) as i64
}

/// Converts a fixed-point value back to a real number.
fn fl(v: i64) -> f64 {
    v as f64 / SCALE as f64
}

fn fexpect(expect: f64, actual: f64) -> bool {
    ((actual - expect) / expect).abs() <= 0.01
}

#[test]
fn at_zero() {
    let l = 1231.728;
    let h = 9314.644;
    assert!(fexpect(l, fl(smooth(fx(l), fx(h), fx(0.0)))));
}

#[test]
fn at_one() {
    let l = 1231.728;
    let h = 9314.644;
    assert!(fexpect(h, fl(smooth(fx(l), fx(h), fx(1.0)))));
}

#[test]
fn endpoints_are_exact() {
    let l = fx(1231.728);
    let h = fx(9314.644);
    assert_eq!(smooth(l, h, 0), l);
    assert_eq!(smooth(l, h, S), h);
    // the same holds with the inputs inverted
    assert_eq!(smooth(h, l, 0), h);
    assert_eq!(smooth(h, l, S), l);
    // and for negative values
    assert_eq!(smooth(-42, 17, 0), -42);
    assert_eq!(smooth(-42, 17, S), 17);
}

#[test]
fn exact_interior_values() {
    // the kernel is symmetric, so the midpoint blend of [0, SCALE] is exact
    assert_eq!(smooth(0, S, S / 2), 524288);
    assert_eq!(smooth(0, S, S / 4), 162350);
    assert_eq!(smooth(100, 200, S / 2), 150);
    assert_eq!(smooth(-S, S, S / 2), 0);
}

#[test]
fn stays_between_inputs() {
    let lo = fx(-0.75);
    let hi = fx(0.5);
    let mut x = 0;
    while x <= S {
        let r = smooth(lo, hi, x);
        assert!(lo <= r && r <= hi);
        let r_inv = smooth(hi, lo, x);
        assert!(lo <= r_inv && r_inv <= hi);
        x += S / 64;
    }
}

#[test]
fn clamps_outside_unit_interval() {
    let lo = fx(-2.0);
    let hi = fx(3.0);
    assert_eq!(smooth(lo, hi, -S), lo);
    assert_eq!(smooth(lo, hi, -1), lo);
    assert_eq!(smooth(lo, hi, S + 1), hi);
    assert_eq!(smooth(lo, hi, 10 * S), hi);
}

#[test]
fn monotone_in_blend_position() {
    // for an increasing pair the sample never decreases as x grows
    let lo = fx(-1.0);
    let hi = fx(1.0);
    let mut prev = smooth(lo, hi, 0);
    let mut x = S / 128;
    while x <= S {
        let r = smooth(lo, hi, x);
        assert!(r >= prev);
        prev = r;
        x += S / 128;
    }
}
