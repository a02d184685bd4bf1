//! The validator: raw records in, users out, stopping at the first record
//! that breaks a rule.

use vstd::prelude::*;
use crate::records::{AgeInput, RawRecord, User, UserView, ValidationError, users_view};
use crate::text::{i32_of_text, parse_i32};

verus! {

/// The message for an age that is not a number; `t` is the offending text.
pub open spec fn age_error_text(t: Seq<char>) -> Seq<char> {
    "Invalid age value: "@ + t
}

/// The message for an identifier that is not positive.
pub open spec fn id_error_text() -> Seq<char> {
    "Invalid id value"@
}

/// The message for an empty name.
pub open spec fn name_error_text() -> Seq<char> {
    "Invalid name value"@
}

/// What an age in text form denotes: its value, or the text itself when it
/// is not a decimal `i32`.
pub open spec fn text_age(t: Seq<char>) -> Result<int, Seq<char>> {
    match i32_of_text(t) {
        Some(v) => Ok(v),
        None => Err(t),
    }
}

/// What an age input denotes: a number of years, or the offending text.
pub open spec fn age_reading(a: AgeInput) -> Result<int, Seq<char>> {
    match a {
        AgeInput::Years(y) => Ok(y as int),
        AgeInput::Invalid(t) => Err(t@),
        AgeInput::Text(t) => text_age(t@),
    }
}

/// The checks on one record, in their order: the age, then the identifier,
/// then the name. The result is the user, or the first broken rule's message.
pub open spec fn check_fields(id: int, name: Seq<char>, age: Result<int, Seq<char>>) -> Result<
    UserView,
    Seq<char>,
> {
    match age {
        Err(t) => Err(age_error_text(t)),
        Ok(years) => if id <= 0 {
            Err(id_error_text())
        } else if name.len() == 0 {
            Err(name_error_text())
        } else {
            Ok(UserView { id, name, age: years })
        },
    }
}

/// The outcome of checking a raw record.
pub open spec fn record_outcome(r: RawRecord) -> Result<UserView, Seq<char>> {
    check_fields(r.id as int, r.name@, age_reading(r.age))
}

/// The mathematical value of a record whose age is in text form.
pub open spec fn row_view(t: (i32, String, String)) -> (int, Seq<char>, Seq<char>) {
    (t.0 as int, t.1@, t.2@)
}

/// The views of a batch of records whose ages are in text form.
pub open spec fn rows_view(data: Seq<(i32, String, String)>) -> Seq<(int, Seq<char>, Seq<char>)> {
    data.map_values(|t: (i32, String, String)| row_view(t))
}

/// The outcome of checking a record whose age is in text form.
pub open spec fn text_record_outcome(t: (int, Seq<char>, Seq<char>)) -> Result<UserView, Seq<char>> {
    check_fields(t.0, t.1, text_age(t.2))
}

/// The result of a batch whose records have the outcomes `o`, in order: all
/// the users, or the message of the first record that failed.
pub open spec fn collect_outcomes(o: Seq<Result<UserView, Seq<char>>>) -> Result<
    Seq<UserView>,
    Seq<char>,
>
    decreases o.len(),
{
    if o.len() == 0 {
        Ok(Seq::empty())
    } else {
        match collect_outcomes(o.drop_last()) {
            Err(e) => Err(e),
            Ok(us) => match o.last() {
                Err(e) => Err(e),
                Ok(u) => Ok(us.push(u)),
            },
        }
    }
}

/// The result of validating a batch of raw records.
pub open spec fn validation_of(records: Seq<RawRecord>) -> Result<Seq<UserView>, Seq<char>> {
    collect_outcomes(records.map_values(|r: RawRecord| record_outcome(r)))
}

/// The result of validating a batch of records whose ages are in text form.
pub open spec fn text_validation_of(rows: Seq<(int, Seq<char>, Seq<char>)>) -> Result<
    Seq<UserView>,
    Seq<char>,
> {
    collect_outcomes(rows.map_values(|t: (int, Seq<char>, Seq<char>)| text_record_outcome(t)))
}

/// A validation result seen through the views of its users and its error.
pub open spec fn users_result(r: Result<Vec<User>, ValidationError>) -> Result<
    Seq<UserView>,
    Seq<char>,
> {
    match r {
        Ok(us) => Ok(users_view(us@)),
        Err(e) => Err(e.0@),
    }
}

/// Once a prefix of the outcomes has failed, the whole batch fails with the
/// same message.
pub proof fn lemma_failure_persists(o: Seq<Result<UserView, Seq<char>>>, k: int)
    requires
        0 <= k <= o.len(),
        collect_outcomes(o.take(k)) is Err,
    ensures
        collect_outcomes(o) == collect_outcomes(o.take(k)),
    decreases o.len(),
{
    if k == o.len() {
        assert(o.take(k) =~= o);
    } else {
        assert(o.drop_last().take(k) =~= o.take(k));
        lemma_failure_persists(o.drop_last(), k);
    }
}

/// A batch succeeds exactly when every record does; the users then come in
/// the order of their records, one for each.
pub proof fn lemma_collect_all(o: Seq<Result<UserView, Seq<char>>>)
    ensures
        collect_outcomes(o) is Ok <==> (forall|i: int| 0 <= i < o.len() ==> #[trigger] o[i] is Ok),
        collect_outcomes(o) is Ok ==> {
            let us = collect_outcomes(o)->Ok_0;
            &&& us.len() == o.len()
            &&& forall|i: int| 0 <= i < o.len() ==> #[trigger] us[i] == o[i]->Ok_0
        },
    decreases o.len(),
{
    if o.len() > 0 {
        let p = o.drop_last();
        lemma_collect_all(p);
        if !(collect_outcomes(p) is Ok) {
            let j = choose|j: int| 0 <= j < p.len() && !(#[trigger] p[j] is Ok);
            assert(!(o[j] is Ok));
        }
        assert forall|i: int| 0 <= i < p.len() implies #[trigger] o[i] == p[i] by {}
    }
}

/// The batch fails with the message of the first record that fails.
pub proof fn lemma_first_failure(o: Seq<Result<UserView, Seq<char>>>, k: int)
    requires
        0 <= k < o.len(),
        o[k] is Err,
        forall|i: int| 0 <= i < k ==> #[trigger] o[i] is Ok,
    ensures
        collect_outcomes(o) == Err::<Seq<UserView>, Seq<char>>(o[k]->Err_0),
{
    let p = o.take(k + 1);
    assert(p.drop_last() =~= o.take(k));
    lemma_collect_all(o.take(k));
    assert(collect_outcomes(p) == Err::<Seq<UserView>, Seq<char>>(o[k]->Err_0));
    lemma_failure_persists(o, k + 1);
}

/// The error for an age that is not a number.
fn age_error(t: &String) -> (e: ValidationError)
    ensures
        e.0@ == age_error_text(t@),
{
    let mut m = String::from_str("Invalid age value: ");
    m.append(t.as_str());
    ValidationError(m)
}

/// Checks one record: the age first, then the identifier, then the name.
pub fn check_record(id: i32, name: String, age: AgeInput) -> (r: Result<User, ValidationError>)
    ensures
        match r {
            Ok(u) => check_fields(id as int, name@, age_reading(age)) == Ok::<UserView, Seq<char>>(u@),
            Err(e) => check_fields(id as int, name@, age_reading(age)) == Err::<UserView, Seq<char>>(e.0@),
        },
{
    let years: i32 = match &age {
        AgeInput::Years(y) => *y,
        AgeInput::Invalid(t) => {
            return Err(age_error(t));
        },
        AgeInput::Text(t) => match parse_i32(t.as_str()) {
            Some(v) => v,
            None => {
                return Err(age_error(t));
            },
        },
    };
    if id <= 0 {
        return Err(ValidationError(String::from_str("Invalid id value")));
    }
    if name.as_str().is_empty() {
        return Err(ValidationError(String::from_str("Invalid name value")));
    }
    Ok(User { id, name, age: years })
}

/// Validates a batch of raw records, in order. On success the users stand in
/// the order of their records; otherwise the error is that of the first
/// record that breaks a rule, and no record after it is examined.
pub fn validate_records(records: Vec<RawRecord>) -> (r: Result<Vec<User>, ValidationError>)
    ensures
        users_result(r) == validation_of(records@),
        r is Ok ==> forall|i: int| 0 <= i < r->Ok_0@.len() ==> (#[trigger] r->Ok_0@[i])@.valid(),
{
    let ghost o = records@.map_values(|r: RawRecord| record_outcome(r));
    let mut users: Vec<User> = Vec::new();
    assert(users_view(users@) =~= Seq::empty());
    assert(o.take(0) =~= Seq::empty());
    for rec in it: records.into_iter()
        invariant
            it.seq() == records@,
            o == records@.map_values(|r: RawRecord| record_outcome(r)),
            collect_outcomes(o.take(it.index() as int)) == Ok::<Seq<UserView>, Seq<char>>(
                users_view(users@),
            ),
            forall|i: int| 0 <= i < users@.len() ==> (#[trigger] users@[i])@.valid(),
    {
        let ghost k = it.index() as int;
        assert(o.take(k + 1).drop_last() =~= o.take(k));
        match check_record(rec.id, rec.name, rec.age) {
            Ok(u) => {
                let ghost before = users@;
                users.push(u);
                assert(users_view(users@) =~= users_view(before).push(u@));
            },
            Err(e) => {
                proof {
                    lemma_failure_persists(o, k + 1);
                }
                return Err(e);
            },
        }
    }
    assert(o.take(o.len() as int) =~= o);
    Ok(users)
}

/// Validates a batch of records whose ages are in text form, as
/// `validate_records` does.
pub fn validate_data(data: Vec<(i32, String, String)>) -> (r: Result<Vec<User>, ValidationError>)
    ensures
        users_result(r) == text_validation_of(rows_view(data@)),
        r is Ok ==> forall|i: int| 0 <= i < r->Ok_0@.len() ==> (#[trigger] r->Ok_0@[i])@.valid(),
{
    let ghost o = rows_view(data@).map_values(
        |t: (int, Seq<char>, Seq<char>)| text_record_outcome(t),
    );
    let mut users: Vec<User> = Vec::new();
    assert(users_view(users@) =~= Seq::empty());
    assert(o.take(0) =~= Seq::empty());
    for rec in it: data.into_iter()
        invariant
            it.seq() == data@,
            o == rows_view(data@).map_values(
                |t: (int, Seq<char>, Seq<char>)| text_record_outcome(t),
            ),
            collect_outcomes(o.take(it.index() as int)) == Ok::<Seq<UserView>, Seq<char>>(
                users_view(users@),
            ),
            forall|i: int| 0 <= i < users@.len() ==> (#[trigger] users@[i])@.valid(),
    {
        let ghost k = it.index() as int;
        assert(o.take(k + 1).drop_last() =~= o.take(k));
        let (id, name, age) = rec;
        match check_record(id, name, AgeInput::Text(age)) {
            Ok(u) => {
                let ghost before = users@;
                users.push(u);
                assert(users_view(users@) =~= users_view(before).push(u@));
            },
            Err(e) => {
                proof {
                    lemma_failure_persists(o, k + 1);
                }
                return Err(e);
            },
        }
    }
    assert(o.take(o.len() as int) =~= o);
    Ok(users)
}

} // verus!
