use gedcomx_edtf::decimal::{decimal_string, signed_decimal_string};
use gedcomx_edtf::{fill_double_figure, fill_tz_hours};

#[test]
fn decimal_numerals() {
    assert_eq!(decimal_string(0), "0");
    assert_eq!(decimal_string(7), "7");
    assert_eq!(decimal_string(10), "10");
    assert_eq!(decimal_string(2003), "2003");
    assert_eq!(decimal_string(4294967295), "4294967295");
    assert_eq!(decimal_string(u64::MAX), "18446744073709551615");
}

#[test]
fn decimal_numerals_agree_with_the_standard_rendering() {
    for n in 0..2000u64 {
        assert_eq!(decimal_string(n), n.to_string());
    }
    for k in 0..64u32 {
        let n = 1u64 << k;
        assert_eq!(decimal_string(n), n.to_string());
        assert_eq!(decimal_string(n - 1), (n - 1).to_string());
    }
}

#[test]
fn signed_numerals() {
    assert_eq!(signed_decimal_string(0), "0");
    assert_eq!(signed_decimal_string(2003), "2003");
    assert_eq!(signed_decimal_string(-1), "-1");
    assert_eq!(signed_decimal_string(-334), "-334");
    assert_eq!(signed_decimal_string(i64::MAX), "9223372036854775807");
    assert_eq!(signed_decimal_string(i64::MIN), "-9223372036854775808");
    assert_eq!(signed_decimal_string(i64::MIN + 1), "-9223372036854775807");
}

#[test]
fn single_figures_get_a_leading_zero() {
    assert_eq!(fill_double_figure(0), "00");
    assert_eq!(fill_double_figure(1), "01");
    assert_eq!(fill_double_figure(3), "03");
    assert_eq!(fill_double_figure(9), "09");
}

#[test]
fn two_figures_stand_as_they_are() {
    assert_eq!(fill_double_figure(10), "10");
    assert_eq!(fill_double_figure(12), "12");
    assert_eq!(fill_double_figure(29), "29");
    assert_eq!(fill_double_figure(59), "59");
    assert_eq!(fill_double_figure(99), "99");
}

#[test]
fn every_value_up_to_fifty_nine_has_two_figures() {
    for n in 0..60u32 {
        let text = fill_double_figure(n);
        assert_eq!(text.len(), 2);
        assert_eq!(text, format!("{:02}", n));
        assert_eq!(text.starts_with('0'), n < 10);
    }
}

#[test]
fn longer_numerals_are_not_cut() {
    assert_eq!(fill_double_figure(100), "100");
    assert_eq!(fill_double_figure(1000), "1000");
    assert_eq!(fill_double_figure(u32::MAX), "4294967295");
}

#[test]
fn tz_hours_above_zero_get_a_plus() {
    assert_eq!(fill_tz_hours(1), "+01");
    assert_eq!(fill_tz_hours(9), "+09");
    assert_eq!(fill_tz_hours(10), "+10");
    assert_eq!(fill_tz_hours(14), "+14");
    assert_eq!(fill_tz_hours(i32::MAX), "+2147483647");
}

#[test]
fn tz_hours_of_zero_get_a_minus() {
    assert_eq!(fill_tz_hours(0), "-00");
}

#[test]
fn tz_hours_below_zero_get_a_minus() {
    assert_eq!(fill_tz_hours(-1), "-01");
    assert_eq!(fill_tz_hours(-5), "-05");
    assert_eq!(fill_tz_hours(-12), "-12");
    assert_eq!(fill_tz_hours(i32::MIN + 1), "-2147483647");
    assert_eq!(fill_tz_hours(i32::MIN), "-2147483648");
}
