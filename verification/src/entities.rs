use vstd::prelude::*;

use crate::gender::Gender;

verus! {

/// A person record. The id is unique and never changes once assigned.
#[derive(Debug, PartialEq)]
pub struct User {
    pub id: u32,
    pub email: String,
    pub first_name: String,
    pub last_name: String,
    pub gender: Gender,
    /// Seconds since the Unix epoch, signed.
    pub birth_date: i32,
}

/// A place record. The id is unique and never changes once assigned.
#[derive(Debug, PartialEq)]
pub struct Location {
    pub id: u32,
    /// Display name of the place.
    pub place: String,
    pub country: String,
    pub city: String,
    pub distance: u32,
}

/// A visit event: a person visited a place at an instant and left a rating
/// mark. The id is unique and never changes once assigned.
#[derive(Clone, Copy, Debug, PartialEq, Eq, Structural)]
pub struct Visit {
    pub id: u32,
    /// Id of the visited place.
    pub location: u32,
    /// Id of the visiting person.
    pub user: u32,
    /// Seconds since the Unix epoch, signed.
    pub visited_at: i32,
    pub mark: u8,
}

impl Clone for User {
    fn clone(&self) -> (r: Self)
        ensures
            r == *self,
    {
        User {
            id: self.id,
            email: self.email.clone(),
            first_name: self.first_name.clone(),
            last_name: self.last_name.clone(),
            gender: self.gender,
            birth_date: self.birth_date,
        }
    }
}

impl Clone for Location {
    fn clone(&self) -> (r: Self)
        ensures
            r == *self,
    {
        Location {
            id: self.id,
            place: self.place.clone(),
            country: self.country.clone(),
            city: self.city.clone(),
            distance: self.distance,
        }
    }
}

/// A partial update for a person. A zero or empty field means "leave the
/// stored value unchanged"; for `gender` the sentinel is `Unknown`. The
/// encoding is lossy by design: a field can never be explicitly set to its
/// sentinel value through an update.
#[derive(Debug)]
pub struct UserUpdate {
    pub email: String,
    pub first_name: String,
    pub last_name: String,
    pub gender: Gender,
    pub birth_date: i32,
}

/// A partial update for a place, with the same sentinel convention as
/// [`UserUpdate`].
#[derive(Debug)]
pub struct LocationUpdate {
    pub place: String,
    pub country: String,
    pub city: String,
    pub distance: u32,
}

/// A partial update for a visit, with the same sentinel convention as
/// [`UserUpdate`].
#[derive(Clone, Copy, Debug)]
pub struct VisitUpdate {
    pub location: u32,
    pub user: u32,
    pub visited_at: i32,
    pub mark: u8,
}

impl Clone for UserUpdate {
    fn clone(&self) -> (r: Self)
        ensures
            r == *self,
    {
        UserUpdate {
            email: self.email.clone(),
            first_name: self.first_name.clone(),
            last_name: self.last_name.clone(),
            gender: self.gender,
            birth_date: self.birth_date,
        }
    }
}

impl Clone for LocationUpdate {
    fn clone(&self) -> (r: Self)
        ensures
            r == *self,
    {
        LocationUpdate {
            place: self.place.clone(),
            country: self.country.clone(),
            city: self.city.clone(),
            distance: self.distance,
        }
    }
}

/// The person record that results from applying a partial update: each field
/// whose update value is not the sentinel is overwritten, the rest keep their
/// stored value. The id never changes.
pub open spec fn apply_user_update(stored: User, upd: UserUpdate) -> User {
    User {
        id: stored.id,
        email: if upd.email@.len() != 0 {
            upd.email
        } else {
            stored.email
        },
        first_name: if upd.first_name@.len() != 0 {
            upd.first_name
        } else {
            stored.first_name
        },
        last_name: if upd.last_name@.len() != 0 {
            upd.last_name
        } else {
            stored.last_name
        },
        gender: if upd.gender != Gender::Unknown {
            upd.gender
        } else {
            stored.gender
        },
        birth_date: if upd.birth_date != 0 {
            upd.birth_date
        } else {
            stored.birth_date
        },
    }
}

/// The place record that results from applying a partial update, under the
/// same sentinel convention as [`apply_user_update`].
pub open spec fn apply_location_update(stored: Location, upd: LocationUpdate) -> Location {
    Location {
        id: stored.id,
        place: if upd.place@.len() != 0 {
            upd.place
        } else {
            stored.place
        },
        country: if upd.country@.len() != 0 {
            upd.country
        } else {
            stored.country
        },
        city: if upd.city@.len() != 0 {
            upd.city
        } else {
            stored.city
        },
        distance: if upd.distance != 0 {
            upd.distance
        } else {
            stored.distance
        },
    }
}

/// The visit record that results from applying a partial update, under the
/// same sentinel convention as [`apply_user_update`].
pub open spec fn apply_visit_update(stored: Visit, upd: VisitUpdate) -> Visit {
    Visit {
        id: stored.id,
        location: if upd.location != 0 {
            upd.location
        } else {
            stored.location
        },
        user: if upd.user != 0 {
            upd.user
        } else {
            stored.user
        },
        visited_at: if upd.visited_at != 0 {
            upd.visited_at
        } else {
            stored.visited_at
        },
        mark: if upd.mark != 0 {
            upd.mark
        } else {
            stored.mark
        },
    }
}

} // verus!
