use mlp::app::training::timestamp_utc;
use mlp::calendar::civil_from_days;
use mlp::text::zero_padded_string;

#[test]
fn epoch_day_is_first_of_january_1970() {
    assert_eq!(civil_from_days(0), (1970, 1, 1));
    assert_eq!(civil_from_days(31), (1970, 2, 1));
    assert_eq!(civil_from_days(59), (1970, 3, 1));
    assert_eq!(civil_from_days(364), (1970, 12, 31));
    assert_eq!(civil_from_days(365), (1971, 1, 1));
}

#[test]
fn leap_days_are_counted() {
    assert_eq!(civil_from_days(11016), (2000, 2, 29));
    assert_eq!(civil_from_days(11017), (2000, 3, 1));
    // 2100 is not a leap year.
    assert_eq!(civil_from_days(47541), (2100, 3, 1));
    assert_eq!(civil_from_days(157419), (2400, 12, 31));
}

#[test]
fn timestamps_render_utc_date_and_time() {
    assert_eq!(timestamp_utc(0), "19700101-000000");
    assert_eq!(timestamp_utc(951782400), "20000229-000000");
    assert_eq!(timestamp_utc(1700000000), "20231114-221320");
    assert_eq!(timestamp_utc(4102444799), "20991231-235959");
    assert_eq!(timestamp_utc(253402300799), "99991231-235959");
    assert_eq!(timestamp_utc(253402300800), "100000101-000000");
}

#[test]
fn zero_padding_only_widens() {
    assert_eq!(zero_padded_string(7, 2), "07");
    assert_eq!(zero_padded_string(7, 4), "0007");
    assert_eq!(zero_padded_string(12345, 4), "12345");
    assert_eq!(zero_padded_string(0, 0), "0");
}
