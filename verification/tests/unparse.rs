use bms_rs::bms::unparse::lcm_slice;

#[test]
fn test_lcm_slice() {
    assert_eq!(lcm_slice(&[]), 1);
    assert_eq!(lcm_slice(&[3]), 3);
    assert_eq!(lcm_slice(&[5]), 5);
    assert_eq!(lcm_slice(&[3, 5]), 15);
    assert_eq!(lcm_slice(&[4, 6]), 12);
    assert_eq!(lcm_slice(&[2, 4, 8]), 8);
    assert_eq!(lcm_slice(&[2, 3, 4]), 12);
    assert_eq!(lcm_slice(&[3, 5, 7]), 105);
    assert_eq!(lcm_slice(&[6, 8, 10]), 120);
    assert_eq!(lcm_slice(&[1, 3]), 3);
    assert_eq!(lcm_slice(&[3, 1]), 3);
}
