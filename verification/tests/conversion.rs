use gedcomx_edtf::conv;

#[test]
fn simple_date() {
    assert_eq!(conv("+2003"), "2003");
    assert_eq!(conv("+2003-03"), "2003-03");
    assert_eq!(conv("+2003-03-29"), "2003-03-29");
    assert_eq!(conv("+2003-03-29T11"), "2003-03-29T11");
    assert_eq!(conv("+2003-03-29T11:32"), "2003-03-29T11:32");
    assert_eq!(conv("+2003-03-29T11:32Z"), "2003-03-29T11:32-00:00");
    assert_eq!(conv("+2003-03-29T11:32+01"), "2003-03-29T11:32+01:00");
    assert_eq!(conv("+2003-03-29T11:32+01:30"), "2003-03-29T11:32+01:30");
    assert_eq!(conv("A+2003"), "2003~");
}

#[test]
fn range() {
    assert_eq!(conv("+2003/+2004"), "2003/2004");
    assert_eq!(conv("+2003-10/+2004-12"), "2003-10/2004-12");
    assert_eq!(conv("+2003/"), "[2003,..]");
    assert_eq!(conv("/+2003"), "[..,2003]");
    assert_eq!(conv("A+2003/+2004"), "2003~/2004~");
    assert_eq!(conv("A+2003-10/+2004-12"), "2003-10~/2004-12~");
    assert_eq!(conv("A+2003/"), "[2003~,..]");
    assert_eq!(conv("A/+2003"), "[..,2003~]");
}

#[test]
fn text_that_is_no_date_gives_the_error_text() {
    assert_eq!(conv(""), "Parsing error");
    assert_eq!(conv("2003"), "Parsing error");
    assert_eq!(conv("+2003-13"), "Parsing error");
    assert_eq!(conv("+2003 "), "Parsing error");
    assert_eq!(conv("+2003-03-29T11:32Zx"), "Parsing error");
}

#[test]
fn years_before_year_one_move_down_by_one() {
    assert_eq!(conv("+0000"), "-1");
    assert_eq!(conv("-0000"), "-1");
    assert_eq!(conv("-0001"), "-2");
    assert_eq!(conv("-0333"), "-334");
    assert_eq!(conv("+0001"), "1");
    assert_eq!(conv("+0476-09-04"), "476-09-04");
}

#[test]
fn negative_time_zone_offsets() {
    assert_eq!(conv("+2003-03-29T11:32-05"), "2003-03-29T11:32-05:00");
    assert_eq!(conv("+2003-03-29T11:32-05:00"), "2003-03-29T11:32-05:00");
    assert_eq!(conv("+2003-03-29T11:32-05:30"), "2003-03-29T11:32-05:4294967266");
}

#[test]
fn seconds_in_the_text_are_dropped() {
    assert_eq!(conv("+2003-03-29T11:32:45"), "2003-03-29T11:32");
    assert_eq!(conv("+2003-03-29T11:32:45Z"), "2003-03-29T11:32-00:00");
}

#[test]
fn range_to_a_duration_gives_the_empty_text() {
    assert_eq!(conv("+2003/P1Y"), "");
    assert_eq!(conv("A+2003-03/P1Y2M3DT4H5M6S"), "");
}

#[test]
fn recurring_text_gives_the_fixed_text() {
    assert_eq!(conv("R3/+2003/+2004"), "recurring dates are not supported yet");
    assert_eq!(conv("R/+2003-03-29/P1Y"), "recurring dates are not supported yet");
}

#[test]
fn ranges_with_times() {
    assert_eq!(
        conv("+2003-03-29T11:32Z/+2004-01-02T03:04+05:06"),
        "2003-03-29T11:32-00:00/2004-01-02T03:04+05:06"
    );
    assert_eq!(conv("A+2003-03-29T11/"), "[2003-03-29T11~,..]");
    assert_eq!(conv("/+2003-03-29T11:32"), "[..,2003-03-29T11:32]");
}

#[test]
fn same_text_gives_the_same_result() {
    for text in ["+2003", "A+2003-10/+2004-12", "/+2003", "R3/+2003/+2004", "no date", ""] {
        assert_eq!(conv(text), conv(text));
    }
}
