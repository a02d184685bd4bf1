//! The records that flow through the pipeline, and their mathematical views.

use vstd::prelude::*;

verus! {

/// An age as it arrives from upstream, before validation.
pub enum AgeInput {
    /// An age that upstream already read as a number of years.
    Years(i32),
    /// An age that upstream could not read as a number; it carries the text.
    Invalid(String),
    /// An age still in text form, to be read as a decimal `i32`.
    Text(String),
}

/// An unvalidated record: identifier, name and age.
pub struct RawRecord {
    pub id: i32,
    pub name: String,
    pub age: AgeInput,
}

/// A record that passed validation.
pub struct User {
    pub id: i32,
    pub name: String,
    pub age: i32,
}

/// The mathematical value of a `User`.
pub struct UserView {
    pub id: int,
    pub name: Seq<char>,
    pub age: int,
}

impl UserView {
    /// What validation guarantees of every user: a positive identifier and
    /// a non-empty name.
    pub open spec fn valid(self) -> bool {
        self.id > 0 && self.name.len() > 0
    }
}

impl View for User {
    type V = UserView;

    open spec fn view(&self) -> UserView {
        UserView { id: self.id as int, name: self.name@, age: self.age as int }
    }
}

/// A user together with whether they are an adult.
pub struct ClassifiedUser {
    pub user: User,
    pub is_adult: bool,
}

/// The mathematical value of a `ClassifiedUser`.
pub struct ClassifiedView {
    pub user: UserView,
    pub is_adult: bool,
}

impl View for ClassifiedUser {
    type V = ClassifiedView;

    open spec fn view(&self) -> ClassifiedView {
        ClassifiedView { user: self.user@, is_adult: self.is_adult }
    }
}

/// The one kind of failure: a message that says which rule a record broke.
pub struct ValidationError(pub String);

impl ValidationError {
    /// The text shown for this error: `Validation error: ` and the message.
    pub fn describe(&self) -> (r: String)
        ensures
            r@ == "Validation error: "@ + self.0@,
    {
        let mut r = String::from_str("Validation error: ");
        r.append(self.0.as_str());
        r
    }
}

/// The views of a sequence of users.
pub open spec fn users_view(us: Seq<User>) -> Seq<UserView> {
    us.map_values(|u: User| u@)
}

/// The views of a sequence of classified users.
pub open spec fn classified_view(cs: Seq<ClassifiedUser>) -> Seq<ClassifiedView> {
    cs.map_values(|c: ClassifiedUser| c@)
}

/// A text result seen through the view of its text and of its error.
pub open spec fn text_result(r: Result<String, ValidationError>) -> Result<Seq<char>, Seq<char>> {
    match r {
        Ok(t) => Ok(t@),
        Err(e) => Err(e.0@),
    }
}

} // verus!
