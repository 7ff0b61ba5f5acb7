use daikoku::money::format_money;

#[test]
fn money_has_two_decimals() {
    assert_eq!(format_money(15_000), "150.00");
    assert_eq!(format_money(5), "0.05");
    assert_eq!(format_money(0), "0.00");
    assert_eq!(format_money(12_345), "123.45");
}

#[test]
fn money_groups_thousands() {
    assert_eq!(format_money(100_000), "1,000.00");
    assert_eq!(format_money(123_456_789), "1,234,567.89");
    assert_eq!(format_money(100_000_000), "1,000,000.00");
}

#[test]
fn negative_money_has_a_sign() {
    assert_eq!(format_money(-5_000), "-50.00");
    assert_eq!(format_money(-1_234_567), "-12,345.67");
    assert_eq!(format_money(i64::MIN), "-92,233,720,368,547,758.08");
    assert_eq!(format_money(i64::MAX), "92,233,720,368,547,758.07");
}
