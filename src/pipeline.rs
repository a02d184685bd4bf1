//! The whole pipeline: validate, classify, summarize, stopping at the first
//! failure.

use vstd::prelude::*;
use crate::classify::{add_is_adult, classification_of};
use crate::records::{RawRecord, UserView, ValidationError, text_result};
use crate::summary::{summarize_data, summary_of};
use crate::validate::{
    lemma_collect_all, lemma_first_failure, record_outcome, rows_view,
    text_validation_of, validate_data, validate_records, validation_of,
};

verus! {

/// The report of a batch whose validation gave `v`: the validation error,
/// or the summary of the classified users.
pub open spec fn pipeline_of(v: Result<Seq<UserView>, Seq<char>>) -> Result<Seq<char>, Seq<char>> {
    match v {
        Err(e) => Err(e),
        Ok(us) => summary_of(classification_of(us)),
    }
}

/// The fixed sample batch: three well-formed records, or the same records
/// with Bob's age written as `thirty`.
pub open spec fn sample_rows(valid: bool) -> Seq<(int, Seq<char>, Seq<char>)> {
    seq![
        (1int, "Alice"@, "25"@),
        (2int, "Bob"@, if valid {
            "30"@
        } else {
            "thirty"@
        }),
        (3int, "Charlie"@, "35"@),
    ]
}

/// Builds the sample batch that `sample_rows` describes.
pub fn generate_data(valid: bool) -> (r: Vec<(i32, String, String)>)
    ensures
        rows_view(r@) == sample_rows(valid),
{
    let bob_age = if valid {
        String::from_str("30")
    } else {
        String::from_str("thirty")
    };
    let r = vec![
        (1, String::from_str("Alice"), String::from_str("25")),
        (2, String::from_str("Bob"), bob_age),
        (3, String::from_str("Charlie"), String::from_str("35")),
    ];
    assert(rows_view(r@) =~= sample_rows(valid));
    r
}

/// Runs the pipeline on a batch of raw records.
pub fn process_records(records: Vec<RawRecord>) -> (r: Result<String, ValidationError>)
    ensures
        text_result(r) == pipeline_of(validation_of(records@)),
{
    let users = validate_records(records)?;
    let classified = add_is_adult(users)?;
    summarize_data(classified)
}

/// Runs the pipeline on a batch of records whose ages are in text form.
pub fn process_data(data: Vec<(i32, String, String)>) -> (r: Result<String, ValidationError>)
    ensures
        text_result(r) == pipeline_of(text_validation_of(rows_view(data@))),
{
    let users = validate_data(data)?;
    let classified = add_is_adult(users)?;
    summarize_data(classified)
}

/// Runs the pipeline on the sample batch.
pub fn process_user_data(valid: bool) -> (r: Result<String, ValidationError>)
    ensures
        text_result(r) == pipeline_of(text_validation_of(sample_rows(valid))),
{
    let data = generate_data(valid);
    process_data(data)
}

/// When a batch validates, its users and their classifications stand in the
/// order of the records, one for each, with the records' identifiers and
/// names.
pub proof fn lemma_order_preserved(records: Seq<RawRecord>)
    ensures
        validation_of(records) is Ok ==> {
            let us = validation_of(records)->Ok_0;
            let cs = classification_of(us);
            &&& us.len() == records.len()
            &&& cs.len() == records.len()
            &&& forall|i: int|
                0 <= i < records.len() ==> {
                    &&& (#[trigger] us[i]).id == records[i].id
                    &&& us[i].name == records[i].name@
                    &&& cs[i].user == us[i]
                }
        },
{
    let o = records.map_values(|r: RawRecord| record_outcome(r));
    lemma_collect_all(o);
    if validation_of(records) is Ok {
        let us = validation_of(records)->Ok_0;
        assert forall|i: int| 0 <= i < records.len() implies (#[trigger] us[i]).id == records[i].id
            && us[i].name == records[i].name@ by {
            assert(o[i] is Ok);
        }
    }
}

/// A batch with an invalid record fails, before any classification or
/// summary, with the message of the first invalid record.
pub proof fn lemma_fail_fast(records: Seq<RawRecord>, k: int)
    requires
        0 <= k < records.len(),
        record_outcome(records[k]) is Err,
        forall|i: int| 0 <= i < k ==> #[trigger] record_outcome(records[i]) is Ok,
    ensures
        validation_of(records) == Err::<Seq<UserView>, Seq<char>>(
            record_outcome(records[k])->Err_0,
        ),
        pipeline_of(validation_of(records)) == Err::<Seq<char>, Seq<char>>(
            record_outcome(records[k])->Err_0,
        ),
{
    let o = records.map_values(|r: RawRecord| record_outcome(r));
    assert forall|i: int| 0 <= i < k implies #[trigger] o[i] is Ok by {
        assert(record_outcome(records[i]) is Ok);
    }
    lemma_first_failure(o, k);
}

} // verus!
