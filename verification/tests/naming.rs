use motion_trails::output_stem;

#[test]
fn stems_are_one_based_and_zero_padded() {
    assert_eq!(output_stem(0), "0001");
    assert_eq!(output_stem(6), "0007");
    assert_eq!(output_stem(41), "0042");
    assert_eq!(output_stem(998), "0999");
    assert_eq!(output_stem(999), "1000");
    assert_eq!(output_stem(9998), "9999");
}

#[test]
fn stems_grow_past_four_digits() {
    assert_eq!(output_stem(9999), "10000");
    assert_eq!(output_stem(123455), "123456");
}
