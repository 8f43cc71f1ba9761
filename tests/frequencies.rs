use ccm_obs::frequencies::DIVIDER;
use ccm_obs::Frequencies;

#[test]
fn scaling_exact_value() {
    let f = Frequencies::from_readings(1000, 1000, 1000);
    assert_eq!(f.current(), Some(8000));
    assert_eq!(f.min(), Some(8000));
    assert_eq!(f.max(), Some(8000));
    assert_eq!(f.divider(), DIVIDER);
}

#[test]
fn scaling_overflow_is_absent() {
    let f = Frequencies::from_readings(0xFFFF_FFFF, 0xFFFF_FFFF, 0xFFFF_FFFF);
    assert_eq!(f.current(), None);
    assert_eq!(f.min(), None);
    assert_eq!(f.max(), None);
    assert_eq!(f.diff(), None);
    assert_eq!(f.raw_current(), 0xFFFF_FFFF);
    assert_eq!(f.raw_min(), 0xFFFF_FFFF);
    assert_eq!(f.raw_max(), 0xFFFF_FFFF);
}

#[test]
fn scaling_edge_of_u32() {
    // 536870911 * 8 = 4294967288 fits; one more does not.
    let f = Frequencies::from_readings(536_870_911, 536_870_912, 0);
    assert_eq!(f.current(), Some(4_294_967_288));
    assert_eq!(f.min(), None);
    assert_eq!(f.max(), Some(0));
}

#[test]
fn diff_is_max_minus_min() {
    let f = Frequencies::from_readings(125, 100, 130);
    assert_eq!(f.diff(), Some(240));
    assert_eq!(f.diff(), Some(f.max().unwrap() - f.min().unwrap()));
}

#[test]
fn diff_floors_at_zero() {
    let f = Frequencies::from_readings(5, 10, 3);
    assert_eq!(f.diff(), Some(0));
}

#[test]
fn diff_absent_when_one_overflows() {
    let f = Frequencies::from_readings(5, 10, 0xFFFF_FFFF);
    assert_eq!(f.diff(), None);
    let g = Frequencies::from_readings(5, 0xFFFF_FFFF, 10);
    assert_eq!(g.diff(), None);
}
