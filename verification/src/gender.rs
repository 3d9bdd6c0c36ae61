use vstd::prelude::*;

verus! {

/// Gender of a person. `Unknown` is an internal sentinel: it stands for "no
/// value supplied" in partial updates and is never a valid filter value.
#[derive(Clone, Copy, Debug, PartialEq, Eq, Structural)]
pub enum Gender {
    Unknown,
    Male,
    Female,
}

/// What `Gender::from_token` returns for each token: only `"m"` and `"f"`
/// are accepted, so the `Unknown` sentinel can never arrive from the wire.
pub open spec fn spec_gender_from_token(token: Seq<char>) -> Option<Gender> {
    if token =~= seq!['m'] {
        Some(Gender::Male)
    } else if token =~= seq!['f'] {
        Some(Gender::Female)
    } else {
        None
    }
}

impl Default for Gender {
    /// The partial-update sentinel: "no change requested".
    fn default() -> (r: Self)
        ensures
            r == Gender::Unknown,
    {
        Gender::Unknown
    }
}

impl Gender {
    /// Parses the wire token for a gender filter value.
    pub fn from_token(token: &str) -> (r: Option<Gender>)
        ensures
            r == spec_gender_from_token(token@),
    {
        if token.unicode_len() == 1 {
            let c = token.get_char(0);
            if c == 'm' {
                Some(Gender::Male)
            } else if c == 'f' {
                Some(Gender::Female)
            } else {
                None
            }
        } else {
            None
        }
    }
}

} // verus!
