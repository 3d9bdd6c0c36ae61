use visitstore::calculate_age_from_timestamp;
use visitstore::Gender;

#[test]
fn age_at_epoch_is_zero() {
    assert_eq!(calculate_age_from_timestamp(0, 0), 0);
}

#[test]
fn age_of_1947_birth_in_2017() {
    // born 1947-06-09; on 2017-09-01 the birthday has passed: 70
    assert_eq!(calculate_age_from_timestamp(-712108800, 1504224000), 70);
}

#[test]
fn age_steps_exactly_at_the_birthday() {
    let birth = -712108800; // 1947-06-09
    // 2017-06-08, the day before the birthday: still 69
    assert_eq!(calculate_age_from_timestamp(birth, 1496880000), 69);
    // 2017-06-09, the birthday itself: 70
    assert_eq!(calculate_age_from_timestamp(birth, 1496966400), 70);
}

#[test]
fn age_counts_calendar_years_not_day_quotients() {
    // born 2000-03-01; on 2010-02-28 the birthday has not yet come, so the
    // age is 9, although more than 9 * 365.25 days have passed
    assert_eq!(calculate_age_from_timestamp(951868800, 1267315200), 9);
}

#[test]
fn age_is_monotone_in_the_reference() {
    let birth = 951868800; // 2000-03-01
    let mut prev = calculate_age_from_timestamp(birth, birth);
    let mut reference = birth;
    for _ in 0..40 {
        reference += 90 * 86400;
        let a = calculate_age_from_timestamp(birth, reference);
        assert!(a >= prev);
        assert!(a - prev <= 1);
        prev = a;
    }
}

#[test]
fn gender_default_is_the_sentinel() {
    assert_eq!(Gender::default(), Gender::Unknown);
}

#[test]
fn gender_tokens() {
    assert_eq!(Gender::from_token("m"), Some(Gender::Male));
    assert_eq!(Gender::from_token("f"), Some(Gender::Female));
    assert_eq!(Gender::from_token("x"), None);
    assert_eq!(Gender::from_token(""), None);
    assert_eq!(Gender::from_token("mf"), None);
}
