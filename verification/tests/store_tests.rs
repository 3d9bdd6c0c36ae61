use visitstore::ApiError;
use visitstore::Gender;
use visitstore::Location;
use visitstore::LocationUpdate;
use visitstore::Store;
use visitstore::User;
use visitstore::UserUpdate;
use visitstore::Visit;
use visitstore::VisitUpdate;

fn mk_user(id: u32, birth_date: i32, gender: Gender) -> User {
    User {
        id,
        email: format!("user{}@example.com", id),
        first_name: format!("First{}", id),
        last_name: format!("Last{}", id),
        gender,
        birth_date,
    }
}

fn mk_location(id: u32, country: &str, distance: u32) -> Location {
    Location {
        id,
        place: format!("Place{}", id),
        country: String::from(country),
        city: format!("City{}", id),
        distance,
    }
}

fn mk_visit(id: u32, location: u32, user: u32, visited_at: i32, mark: u8) -> Visit {
    Visit { id, location, user, visited_at, mark }
}

#[test]
fn user_create_roundtrip() {
    let mut s = Store::new(1504224000);
    let u = mk_user(1, -712108800, Gender::Female);
    assert_eq!(s.create_user(u.clone()), Ok(()));
    let got = s.get_user(1).expect("user 1 must be present");
    assert_eq!(got.id, 1);
    assert_eq!(got.email, u.email);
    assert_eq!(got.first_name, u.first_name);
    assert_eq!(got.last_name, u.last_name);
    assert_eq!(got.gender, Gender::Female);
    assert_eq!(got.birth_date, -712108800);
}

#[test]
fn location_create_roundtrip() {
    let mut s = Store::new(0);
    let l = mk_location(5, "ru", 150);
    assert_eq!(s.create_location(l.clone()), Ok(()));
    let got = s.get_location(5).expect("location 5 must be present");
    assert_eq!(got.id, 5);
    assert_eq!(got.place, l.place);
    assert_eq!(got.country, "ru");
    assert_eq!(got.city, l.city);
    assert_eq!(got.distance, 150);
}

#[test]
fn visit_create_roundtrip() {
    let mut s = Store::new(0);
    let v = mk_visit(10, 5, 1, 1000, 80);
    assert_eq!(s.create_visit(v), Ok(()));
    assert_eq!(s.get_visit(10), Some(v));
}

#[test]
fn create_conflicts() {
    let mut s = Store::new(0);
    assert_eq!(s.create_user(mk_user(1, 0, Gender::Male)), Ok(()));
    assert_eq!(s.create_user(mk_user(1, 5, Gender::Female)), Err(ApiError::Conflict));
    assert_eq!(s.create_location(mk_location(2, "de", 1)), Ok(()));
    assert_eq!(s.create_location(mk_location(2, "fr", 2)), Err(ApiError::Conflict));
    assert_eq!(s.create_visit(mk_visit(3, 2, 1, 7, 9)), Ok(()));
    assert_eq!(s.create_visit(mk_visit(3, 9, 9, 9, 9)), Err(ApiError::Conflict));
    // the conflicting create left the stored records untouched
    assert_eq!(s.get_user(1).unwrap().birth_date, 0);
    assert_eq!(s.get_location(2).unwrap().country, "de");
    assert_eq!(s.get_visit(3), Some(mk_visit(3, 2, 1, 7, 9)));
}

#[test]
fn update_missing_is_not_found() {
    let mut s = Store::new(0);
    let uu = UserUpdate {
        email: String::new(),
        first_name: String::new(),
        last_name: String::new(),
        gender: Gender::Unknown,
        birth_date: 0,
    };
    assert_eq!(s.update_user(7, uu), Err(ApiError::NotFound));
    let lu = LocationUpdate {
        place: String::new(),
        country: String::new(),
        city: String::new(),
        distance: 0,
    };
    assert_eq!(s.update_location(7, lu), Err(ApiError::NotFound));
    let vu = VisitUpdate { location: 0, user: 0, visited_at: 0, mark: 0 };
    assert_eq!(s.update_visit(7, vu), Err(ApiError::NotFound));
}

#[test]
fn lookup_missing_is_none() {
    let s = Store::new(0);
    assert_eq!(s.get_user(1), None);
    assert!(s.get_location(1).is_none());
    assert_eq!(s.get_visit(1), None);
    assert_eq!(s.get_age(1), None);
    assert_eq!(s.get_user_visit_ids(1), None);
    assert_eq!(s.get_location_visit_ids(1), None);
}

#[test]
fn update_user_gender_scenario() {
    // person born 1947-06-09; reference instant 2017-09-01, past the
    // birthday that year, so the age is 2017 - 1947 = 70
    let mut s = Store::new(1504224000);
    let u = mk_user(1, -712108800, Gender::Male);
    assert_eq!(s.create_user(u.clone()), Ok(()));
    assert_eq!(s.get_age(1), Some(70));
    let upd = UserUpdate {
        email: String::new(),
        first_name: String::new(),
        last_name: String::new(),
        gender: Gender::Female,
        birth_date: 0,
    };
    assert_eq!(s.update_user(1, upd), Ok(()));
    let got = s.get_user(1).unwrap();
    assert_eq!(got.gender, Gender::Female);
    assert_eq!(got.email, u.email);
    assert_eq!(got.first_name, u.first_name);
    assert_eq!(got.last_name, u.last_name);
    assert_eq!(got.birth_date, -712108800);
    assert_eq!(s.get_age(1), Some(70));
}

#[test]
fn update_user_sentinels_leave_fields() {
    let mut s = Store::new(0);
    let u = mk_user(1, 100, Gender::Male);
    s.create_user(u.clone()).unwrap();
    let upd = UserUpdate {
        email: String::from("new@example.com"),
        first_name: String::new(),
        last_name: String::new(),
        gender: Gender::Unknown,
        birth_date: 0,
    };
    assert_eq!(s.update_user(1, upd), Ok(()));
    let got = s.get_user(1).unwrap();
    assert_eq!(got.email, "new@example.com");
    assert_eq!(got.first_name, u.first_name);
    assert_eq!(got.gender, Gender::Male);
    assert_eq!(got.birth_date, 100);
}

#[test]
fn update_user_birth_date_recomputes_age() {
    // reference instant 2017-09-01
    let mut s = Store::new(1504224000);
    s.create_user(mk_user(1, -712108800, Gender::Male)).unwrap();
    assert_eq!(s.get_age(1), Some(70));
    // re-birth on 2000-03-01: birthday already passed at the reference
    let upd = UserUpdate {
        email: String::new(),
        first_name: String::new(),
        last_name: String::new(),
        gender: Gender::Unknown,
        birth_date: 951868800,
    };
    assert_eq!(s.update_user(1, upd), Ok(()));
    assert_eq!(s.get_age(1), Some(17));
}

#[test]
fn update_location_sentinels() {
    let mut s = Store::new(0);
    s.create_location(mk_location(5, "ru", 150)).unwrap();
    let upd = LocationUpdate {
        place: String::new(),
        country: String::from("de"),
        city: String::new(),
        distance: 0,
    };
    assert_eq!(s.update_location(5, upd), Ok(()));
    let got = s.get_location(5).unwrap();
    assert_eq!(got.country, "de");
    assert_eq!(got.distance, 150);
    assert_eq!(got.place, "Place5");
    assert_eq!(got.city, "City5");
}

#[test]
fn visit_indexes_built_on_create() {
    let mut s = Store::new(0);
    s.create_visit(mk_visit(10, 5, 1, 1000, 80)).unwrap();
    s.create_visit(mk_visit(11, 5, 2, 900, 70)).unwrap();
    s.create_visit(mk_visit(12, 6, 1, 800, 60)).unwrap();
    assert_eq!(s.get_location_visit_ids(5), Some(vec![10, 11]));
    assert_eq!(s.get_location_visit_ids(6), Some(vec![12]));
    assert_eq!(s.get_user_visit_ids(1), Some(vec![10, 12]));
    assert_eq!(s.get_user_visit_ids(2), Some(vec![11]));
}

#[test]
fn visit_relocation_scenario() {
    // moving a visit to another person removes it from the old bucket and
    // appends it to the new one; the place bucket is untouched
    let mut s = Store::new(1504224000);
    s.create_user(mk_user(1, -712108800, Gender::Female)).unwrap();
    s.create_user(mk_user(2, 0, Gender::Male)).unwrap();
    s.create_location(mk_location(5, "ru", 150)).unwrap();
    s.create_visit(mk_visit(10, 5, 1, 1000, 80)).unwrap();
    let upd = VisitUpdate { location: 0, user: 2, visited_at: 0, mark: 0 };
    assert_eq!(s.update_visit(10, upd), Ok(()));
    assert_eq!(s.get_user_visit_ids(1), Some(vec![]));
    assert_eq!(s.get_user_visit_ids(2), Some(vec![10]));
    assert_eq!(s.get_location_visit_ids(5), Some(vec![10]));
    assert_eq!(s.get_visit(10), Some(mk_visit(10, 5, 2, 1000, 80)));
}

#[test]
fn visit_relocation_appends_at_end() {
    let mut s = Store::new(0);
    s.create_visit(mk_visit(1, 5, 7, 10, 1)).unwrap();
    s.create_visit(mk_visit(2, 6, 8, 20, 2)).unwrap();
    s.create_visit(mk_visit(3, 6, 8, 30, 3)).unwrap();
    // move visit 1 to place 6: it leaves bucket 5 and lands at the end
    let upd = VisitUpdate { location: 6, user: 0, visited_at: 0, mark: 0 };
    assert_eq!(s.update_visit(1, upd), Ok(()));
    assert_eq!(s.get_location_visit_ids(5), Some(vec![]));
    assert_eq!(s.get_location_visit_ids(6), Some(vec![2, 3, 1]));
    // person buckets were not touched
    assert_eq!(s.get_user_visit_ids(7), Some(vec![1]));
    assert_eq!(s.get_user_visit_ids(8), Some(vec![2, 3]));
}

#[test]
fn visit_update_sentinels() {
    let mut s = Store::new(0);
    s.create_visit(mk_visit(10, 5, 1, 1000, 80)).unwrap();
    let upd = VisitUpdate { location: 0, user: 0, visited_at: 2000, mark: 0 };
    assert_eq!(s.update_visit(10, upd), Ok(()));
    assert_eq!(s.get_visit(10), Some(mk_visit(10, 5, 1, 2000, 80)));
    // same-reference update does not disturb the indexes
    let upd2 = VisitUpdate { location: 5, user: 1, visited_at: 0, mark: 42 };
    assert_eq!(s.update_visit(10, upd2), Ok(()));
    assert_eq!(s.get_visit(10), Some(mk_visit(10, 5, 1, 2000, 42)));
    assert_eq!(s.get_location_visit_ids(5), Some(vec![10]));
    assert_eq!(s.get_user_visit_ids(1), Some(vec![10]));
}

#[test]
fn ingest_batches() {
    let mut s = Store::new(1504224000);
    s.ingest_users(vec![
        mk_user(1, -712108800, Gender::Female),
        mk_user(2, 951868800, Gender::Male),
        mk_user(1, 0, Gender::Male),
    ]);
    // the duplicate id was skipped, not overwritten
    assert_eq!(s.get_user(1).unwrap().birth_date, -712108800);
    assert_eq!(s.get_user(2).unwrap().birth_date, 951868800);
    assert_eq!(s.get_age(1), Some(70));
    s.ingest_locations(vec![mk_location(5, "ru", 150), mk_location(6, "de", 20)]);
    assert_eq!(s.get_location(6).unwrap().country, "de");
    s.ingest_visits(vec![
        mk_visit(10, 5, 1, 1000, 80),
        mk_visit(11, 6, 1, 900, 70),
        mk_visit(10, 6, 2, 1, 1),
    ]);
    assert_eq!(s.get_visit(10), Some(mk_visit(10, 5, 1, 1000, 80)));
    assert_eq!(s.get_user_visit_ids(1), Some(vec![10, 11]));
    assert_eq!(s.get_location_visit_ids(5), Some(vec![10]));
    assert_eq!(s.get_location_visit_ids(6), Some(vec![11]));
}
