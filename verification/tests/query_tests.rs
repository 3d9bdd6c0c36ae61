use visitstore::ApiError;
use visitstore::Gender;
use visitstore::Location;
use visitstore::LocationAvgParams;
use visitstore::Store;
use visitstore::User;
use visitstore::UsersVisitsParams;
use visitstore::Visit;
use visitstore::VisitInfo;

fn mk_user(id: u32, birth_date: i32, gender: Gender) -> User {
    User {
        id,
        email: format!("user{}@example.com", id),
        first_name: format!("First{}", id),
        last_name: format!("Last{}", id),
        gender,
        birth_date,
    }
}

fn mk_location(id: u32, place: &str, country: &str, distance: u32) -> Location {
    Location {
        id,
        place: String::from(place),
        country: String::from(country),
        city: format!("City{}", id),
        distance,
    }
}

fn mk_visit(id: u32, location: u32, user: u32, visited_at: i32, mark: u8) -> Visit {
    Visit { id, location, user, visited_at, mark }
}

fn no_visit_filters() -> UsersVisitsParams {
    UsersVisitsParams { from_date: None, to_date: None, country: None, to_distance: None }
}

fn no_avg_filters() -> LocationAvgParams {
    LocationAvgParams { from_date: None, to_date: None, from_age: None, to_age: None, gender: None }
}

fn sample_store() -> Store {
    // reference instant 2017-09-01
    let mut s = Store::new(1504224000);
    s.create_user(mk_user(1, -712108800, Gender::Female)).unwrap();
    s.create_user(mk_user(2, 951868800, Gender::Male)).unwrap();
    s.create_location(mk_location(5, "Old Town", "ru", 150)).unwrap();
    s.create_location(mk_location(6, "Harbour", "de", 20)).unwrap();
    s.create_visit(mk_visit(10, 5, 1, 1000, 80)).unwrap();
    s.create_visit(mk_visit(11, 6, 1, 400, 50)).unwrap();
    s.create_visit(mk_visit(12, 5, 2, 1600, 30)).unwrap();
    s
}

#[test]
fn users_visits_not_found() {
    let s = sample_store();
    assert_eq!(s.users_visits(99, None).unwrap_err(), ApiError::NotFound);
}

#[test]
fn users_visits_empty_filter_set_is_bad_request() {
    let s = sample_store();
    assert_eq!(s.users_visits(1, Some(no_visit_filters())).unwrap_err(), ApiError::BadRequest);
}

#[test]
fn users_visits_without_bucket_is_empty() {
    let mut s = Store::new(0);
    s.create_user(mk_user(3, 0, Gender::Male)).unwrap();
    let r = s.users_visits(3, None).unwrap();
    assert!(r.visits.is_empty());
}

#[test]
fn users_visits_sorted_by_time() {
    let s = sample_store();
    let r = s.users_visits(1, None).unwrap();
    assert_eq!(
        r.visits,
        vec![
            VisitInfo { mark: 50, visited_at: 400, place: String::from("Harbour") },
            VisitInfo { mark: 80, visited_at: 1000, place: String::from("Old Town") },
        ]
    );
}

#[test]
fn users_visits_ties_keep_insertion_order() {
    let mut s = Store::new(0);
    s.create_user(mk_user(1, 0, Gender::Male)).unwrap();
    s.create_location(mk_location(5, "A", "ru", 1)).unwrap();
    s.create_location(mk_location(6, "B", "ru", 2)).unwrap();
    s.create_visit(mk_visit(20, 5, 1, 700, 3)).unwrap();
    s.create_visit(mk_visit(21, 6, 1, 700, 4)).unwrap();
    s.create_visit(mk_visit(22, 5, 1, 100, 5)).unwrap();
    let r = s.users_visits(1, None).unwrap();
    assert_eq!(
        r.visits,
        vec![
            VisitInfo { mark: 5, visited_at: 100, place: String::from("A") },
            VisitInfo { mark: 3, visited_at: 700, place: String::from("A") },
            VisitInfo { mark: 4, visited_at: 700, place: String::from("B") },
        ]
    );
}

#[test]
fn users_visits_date_bounds_are_strict() {
    let s = sample_store();
    // person 1 has visits at 400 and 1000
    let p = UsersVisitsParams {
        from_date: Some(400),
        to_date: Some(1000),
        country: None,
        to_distance: None,
    };
    let r = s.users_visits(1, Some(p)).unwrap();
    // 400 is excluded by the strict lower bound, 1000 by the strict upper
    assert!(r.visits.is_empty());
    let wide = UsersVisitsParams {
        from_date: Some(399),
        to_date: Some(1001),
        country: None,
        to_distance: None,
    };
    let r2 = s.users_visits(1, Some(wide)).unwrap();
    assert_eq!(r2.visits.len(), 2);
}

#[test]
fn users_visits_country_filter() {
    let s = sample_store();
    let p = UsersVisitsParams {
        from_date: None,
        to_date: None,
        country: Some(String::from("de")),
        to_distance: None,
    };
    let r = s.users_visits(1, Some(p)).unwrap();
    assert_eq!(
        r.visits,
        vec![VisitInfo { mark: 50, visited_at: 400, place: String::from("Harbour") }]
    );
}

#[test]
fn users_visits_distance_bound_is_strict() {
    let s = sample_store();
    // place 6 is at distance 20: a bound of exactly 20 excludes it
    let p = UsersVisitsParams {
        from_date: None,
        to_date: None,
        country: None,
        to_distance: Some(20),
    };
    let r = s.users_visits(1, Some(p)).unwrap();
    assert!(r.visits.is_empty());
    let p2 = UsersVisitsParams {
        from_date: None,
        to_date: None,
        country: None,
        to_distance: Some(21),
    };
    let r2 = s.users_visits(1, Some(p2)).unwrap();
    assert_eq!(r2.visits.len(), 1);
    assert_eq!(r2.visits[0].place, "Harbour");
}

#[test]
fn users_visits_dangling_place_is_internal() {
    let mut s = Store::new(0);
    s.create_user(mk_user(1, 0, Gender::Male)).unwrap();
    s.create_visit(mk_visit(10, 99, 1, 1000, 80)).unwrap();
    assert_eq!(s.users_visits(1, None).unwrap_err(), ApiError::Internal);
}

#[test]
fn users_visits_idempotent() {
    let s = sample_store();
    let p = UsersVisitsParams {
        from_date: Some(0),
        to_date: None,
        country: None,
        to_distance: None,
    };
    let r1 = s.users_visits(1, Some(p.clone())).unwrap();
    let r2 = s.users_visits(1, Some(p)).unwrap();
    assert_eq!(r1, r2);
}

#[test]
fn locations_avg_not_found() {
    let s = sample_store();
    assert_eq!(s.locations_avg(99, None).unwrap_err(), ApiError::NotFound);
}

#[test]
fn locations_avg_empty_filter_set_is_bad_request() {
    let s = sample_store();
    assert_eq!(s.locations_avg(5, Some(no_avg_filters())).unwrap_err(), ApiError::BadRequest);
}

#[test]
fn locations_avg_unknown_gender_is_bad_request() {
    let s = sample_store();
    let p = LocationAvgParams {
        from_date: None,
        to_date: None,
        from_age: None,
        to_age: None,
        gender: Some(Gender::Unknown),
    };
    assert_eq!(s.locations_avg(5, Some(p)).unwrap_err(), ApiError::BadRequest);
}

#[test]
fn locations_avg_no_visits_is_zero() {
    // a place with zero indexed visits answers 0 under any valid filter
    let mut s = Store::new(0);
    s.create_location(mk_location(5, "Empty", "ru", 1)).unwrap();
    let p = LocationAvgParams {
        from_date: Some(500),
        to_date: Some(1500),
        from_age: None,
        to_age: None,
        gender: None,
    };
    let r = s.locations_avg(5, Some(p)).unwrap();
    assert_eq!(r.avg_e5, 0);
}

#[test]
fn locations_avg_date_window_scenario() {
    // visits at 400, 1000 and 1600; the window (500, 1500) keeps only the
    // visit at 1000, whose mark is the average
    let mut s = Store::new(0);
    s.create_location(mk_location(5, "P", "ru", 1)).unwrap();
    s.create_visit(mk_visit(1, 5, 1, 400, 10)).unwrap();
    s.create_visit(mk_visit(2, 5, 1, 1000, 20)).unwrap();
    s.create_visit(mk_visit(3, 5, 1, 1600, 30)).unwrap();
    let p = LocationAvgParams {
        from_date: Some(500),
        to_date: Some(1500),
        from_age: None,
        to_age: None,
        gender: None,
    };
    let r = s.locations_avg(5, Some(p)).unwrap();
    assert_eq!(r.avg_e5, 20 * 100000);
}

#[test]
fn locations_avg_plain_average() {
    let s = sample_store();
    // place 5 carries marks 80 and 30: average 55
    let r = s.locations_avg(5, None).unwrap();
    assert_eq!(r.avg_e5, 55 * 100000);
}

#[test]
fn locations_avg_rounds_to_five_digits() {
    let mut s = Store::new(0);
    s.create_location(mk_location(5, "P", "ru", 1)).unwrap();
    s.create_visit(mk_visit(1, 5, 1, 10, 1)).unwrap();
    s.create_visit(mk_visit(2, 5, 1, 20, 0)).unwrap();
    s.create_visit(mk_visit(3, 5, 1, 30, 0)).unwrap();
    // 1/3 = 0.333333... -> 0.33333
    let r = s.locations_avg(5, None).unwrap();
    assert_eq!(r.avg_e5, 33333);
}

#[test]
fn locations_avg_rounds_half_away_from_zero() {
    let mut s = Store::new(0);
    s.create_location(mk_location(5, "P", "ru", 1)).unwrap();
    // 64 visits, one of mark 1: 1/64 = 0.015625 -> 0.01563 (the exact half
    // 0.0156 25 rounds away from zero on the fifth digit)
    s.create_visit(mk_visit(1, 5, 1, 10, 1)).unwrap();
    for id in 2..=64u32 {
        s.create_visit(mk_visit(id, 5, 1, 10, 0)).unwrap();
    }
    let r = s.locations_avg(5, None).unwrap();
    assert_eq!(r.avg_e5, 1563);
}

#[test]
fn locations_avg_age_filters() {
    let s = sample_store();
    // at the reference instant person 1 is 70 and person 2 is 17;
    // place 5 was visited by person 1 (mark 80) and person 2 (mark 30)
    let young = LocationAvgParams {
        from_date: None,
        to_date: None,
        from_age: None,
        to_age: Some(18),
        gender: None,
    };
    assert_eq!(s.locations_avg(5, Some(young)).unwrap().avg_e5, 30 * 100000);
    let old = LocationAvgParams {
        from_date: None,
        to_date: None,
        from_age: Some(18),
        to_age: None,
        gender: None,
    };
    assert_eq!(s.locations_avg(5, Some(old)).unwrap().avg_e5, 80 * 100000);
    // from_age is inclusive: person 2 is exactly 17
    let exact = LocationAvgParams {
        from_date: None,
        to_date: None,
        from_age: Some(17),
        to_age: None,
        gender: None,
    };
    assert_eq!(s.locations_avg(5, Some(exact)).unwrap().avg_e5, 55 * 100000);
    // to_age is strict: a bound of exactly 17 excludes person 2
    let strict = LocationAvgParams {
        from_date: None,
        to_date: None,
        from_age: None,
        to_age: Some(17),
        gender: None,
    };
    assert_eq!(s.locations_avg(5, Some(strict)).unwrap().avg_e5, 0);
}

#[test]
fn locations_avg_gender_filter() {
    let s = sample_store();
    let p = LocationAvgParams {
        from_date: None,
        to_date: None,
        from_age: None,
        to_age: None,
        gender: Some(Gender::Female),
    };
    assert_eq!(s.locations_avg(5, Some(p)).unwrap().avg_e5, 80 * 100000);
}

#[test]
fn locations_avg_dangling_user_is_internal() {
    let mut s = Store::new(0);
    s.create_location(mk_location(5, "P", "ru", 1)).unwrap();
    s.create_visit(mk_visit(1, 5, 42, 10, 3)).unwrap();
    let p = LocationAvgParams {
        from_date: None,
        to_date: None,
        from_age: Some(1),
        to_age: None,
        gender: None,
    };
    assert_eq!(s.locations_avg(5, Some(p)).unwrap_err(), ApiError::Internal);
    // without an age or gender filter the visitor is never read
    assert_eq!(s.locations_avg(5, None).unwrap().avg_e5, 3 * 100000);
}

#[test]
fn locations_avg_idempotent() {
    let s = sample_store();
    let r1 = s.locations_avg(5, None).unwrap();
    let r2 = s.locations_avg(5, None).unwrap();
    assert_eq!(r1, r2);
}
