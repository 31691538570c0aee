use redisdesk::timefmt::create_time_string;

#[test]
fn epoch_renders_as_rfc3339() {
    assert_eq!(create_time_string(0, 0), "1970-01-01T00:00:00+00:00");
}

#[test]
fn an_ordinary_timestamp_renders_with_date_and_time() {
    assert_eq!(create_time_string(1431648000, 0), "2015-05-15T00:00:00+00:00");
}

#[test]
fn out_of_range_timestamp_falls_back_to_the_given_now() {
    assert_eq!(create_time_string(i64::MAX, 1431648000), "2015-05-15T00:00:00+00:00");
}
