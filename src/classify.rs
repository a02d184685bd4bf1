//! The classifier: marks each user as adult or not.

use vstd::prelude::*;
use crate::records::{ClassifiedUser, ClassifiedView, User, UserView, ValidationError, classified_view, users_view};

verus! {

/// The age from which a user counts as an adult.
pub const ADULT_AGE: i32 = 18;

/// A user with its classification: adult exactly when the age is at least
/// `ADULT_AGE`.
pub open spec fn classify_user(u: UserView) -> ClassifiedView {
    ClassifiedView { user: u, is_adult: u.age >= ADULT_AGE }
}

/// The classification of a sequence of users, one entry for each, in order.
pub open spec fn classification_of(us: Seq<UserView>) -> Seq<ClassifiedView> {
    us.map_values(|u: UserView| classify_user(u))
}

/// Each entry of a classification holds its user unchanged, and is marked
/// adult exactly when the age is at least 18.
pub proof fn lemma_adult_exact(us: Seq<UserView>)
    ensures
        classification_of(us).len() == us.len(),
        forall|i: int|
            0 <= i < us.len() ==> {
                &&& (#[trigger] classification_of(us)[i]).user == us[i]
                &&& classification_of(us)[i].is_adult == (us[i].age >= 18)
            },
{
}

/// Classifies every user, keeping their order. It always succeeds; the
/// `Result` lets it compose with the other stages.
pub fn add_is_adult(users: Vec<User>) -> (r: Result<Vec<ClassifiedUser>, ValidationError>)
    ensures
        match r {
            Ok(cs) => classified_view(cs@) == classification_of(users_view(users@)),
            Err(_) => false,
        },
{
    let ghost expected = classification_of(users_view(users@));
    let mut out: Vec<ClassifiedUser> = Vec::new();
    for user in it: users.into_iter()
        invariant
            it.seq() == users@,
            expected == classification_of(users_view(users@)),
            out@.len() == it.index(),
            forall|i: int| 0 <= i < it.index() ==> #[trigger] out@[i]@ == expected[i],
    {
        let is_adult = user.age >= ADULT_AGE;
        out.push(ClassifiedUser { user, is_adult });
    }
    assert(classified_view(out@) =~= expected);
    Ok(out)
}

} // verus!
