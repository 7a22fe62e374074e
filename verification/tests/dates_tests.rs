use sitegen::dates::get_date_from_iso8601;

#[test]
fn date_from_full_timestamp() {
    let ts = String::from("2022-03-01T12:34:56Z");
    assert_eq!(get_date_from_iso8601(&ts), "2022-03-01");
}

#[test]
fn date_from_date_only() {
    let ts = String::from("2019-12-31");
    assert_eq!(get_date_from_iso8601(&ts), "2019-12-31");
}

#[test]
fn date_has_ten_chars() {
    let ts = String::from("2021-06-15T00:00:00+02:00");
    let d = get_date_from_iso8601(&ts);
    assert_eq!(d.len(), 10);
    assert_eq!(d, "2021-06-15");
}

#[test]
fn date_from_empty_string() {
    let ts = String::new();
    assert_eq!(get_date_from_iso8601(&ts), "");
}

#[test]
fn date_from_leading_separator() {
    let ts = String::from("T10:00:00");
    assert_eq!(get_date_from_iso8601(&ts), "");
}
