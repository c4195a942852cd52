use json_ld_utils::{calc_dt_duration, calc_dt_step, RangeError};

#[test]
fn step_follows_the_finest_format_code() {
    assert_eq!(calc_dt_step("logs/%Y-%m-%d/%H/%M/%S.json"), 1);
    assert_eq!(calc_dt_step("logs/%Y-%m-%d/%H/%M.json"), 60);
    assert_eq!(calc_dt_step("logs/%Y-%m-%d/%H.json"), 3600);
    assert_eq!(calc_dt_step("logs/%Y-%m-%d.json"), 86400);
    assert_eq!(calc_dt_step("logs/all.json"), 1);
}

#[test]
fn step_prefers_seconds_over_days() {
    assert_eq!(calc_dt_step("%d/%S"), 1);
    assert_eq!(calc_dt_step("%S%d"), 1);
}

#[test]
fn absolute_pair_is_parsed_exactly() {
    let r = calc_dt_duration("2020-01-01T00:00:00+00:00", "2020-01-01T00:00:10+00:00");
    assert_eq!(r, Ok((1577836800, 1577836810)));
}

#[test]
fn absolute_pair_with_offset_is_the_same_instant() {
    let r = calc_dt_duration("2020-01-01T09:00:00+09:00", "2020-01-01T00:00:00Z");
    assert_eq!(r, Ok((1577836800, 1577836800)));
}

#[test]
fn unparseable_absolute_bound_fails() {
    let r = calc_dt_duration("yesterday", "2020-01-01T00:00:00Z");
    match r {
        Err(RangeError::BadDateTime { text }) => assert_eq!(text, "yesterday"),
        other => panic!("expected a BadDateTime failure, got {:?}", other),
    }
}

#[test]
fn relative_seconds_share_one_base() {
    let r = calc_dt_duration("-30S", "-10S").unwrap();
    assert_eq!(r.0 - r.1, -20);
}

#[test]
fn relative_minutes_hours_days_share_one_base() {
    let m = calc_dt_duration("-5M", "-2M").unwrap();
    assert_eq!(m.0 - m.1, -180);
    let h = calc_dt_duration("-2H", "-1H").unwrap();
    assert_eq!(h.0 - h.1, -3600);
    let d = calc_dt_duration("-3d", "-1d").unwrap();
    assert_eq!(d.0 - d.1, -172800);
}

#[test]
fn relative_bound_without_digits_fails() {
    let r = calc_dt_duration("-S", "-1S");
    match r {
        Err(RangeError::BadAmount { text }) => assert_eq!(text, "-S"),
        other => panic!("expected a BadAmount failure, got {:?}", other),
    }
}

#[test]
fn relative_amount_too_large_for_i64_fails() {
    let r = calc_dt_duration("-99999999999999999999S", "-1S");
    match r {
        Err(RangeError::BadAmount { text }) => assert_eq!(text, "-99999999999999999999S"),
        other => panic!("expected a BadAmount failure, got {:?}", other),
    }
}
