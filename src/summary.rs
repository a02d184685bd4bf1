//! The summarizer: average age, oldest user and number of adults.

use vstd::prelude::*;
use vstd::arithmetic::div_mod::lemma_fundamental_div_mod;
use crate::records::{ClassifiedUser, ClassifiedView, ValidationError, classified_view, text_result};
use crate::text::{int_text, nat_text, push_int, push_nat};

verus! {

/// The sum of the ages.
pub open spec fn age_total(cs: Seq<ClassifiedView>) -> int
    decreases cs.len(),
{
    if cs.len() == 0 {
        0
    } else {
        age_total(cs.drop_last()) + cs.last().user.age
    }
}

/// The number of entries marked adult.
pub open spec fn adult_count(cs: Seq<ClassifiedView>) -> nat
    decreases cs.len(),
{
    if cs.len() == 0 {
        0
    } else {
        adult_count(cs.drop_last()) + if cs.last().is_adult {
            1nat
        } else {
            0nat
        }
    }
}

/// The position of the oldest entry; among entries of equal age the first.
pub open spec fn oldest_index(cs: Seq<ClassifiedView>) -> int
    decreases cs.len(),
{
    if cs.len() <= 1 {
        0
    } else {
        let k = oldest_index(cs.drop_last());
        if cs.last().user.age > cs[k].user.age {
            cs.len() - 1
        } else {
            k
        }
    }
}

/// `m / n` in tenths, rounded to the nearest tenth, halves upward.
pub open spec fn half_up_tenths(m: nat, n: nat) -> nat {
    (20 * m + n) / (2 * n)
}

/// `total / n` in tenths, rounded to the nearest tenth, halves away from zero.
pub open spec fn rounded_tenths(total: int, n: nat) -> int {
    if total >= 0 {
        half_up_tenths(total as nat, n) as int
    } else {
        -half_up_tenths((-total) as nat, n)
    }
}

/// A number of tenths written with one decimal digit, as in `-2.5`.
pub open spec fn tenths_text(t: int) -> Seq<char> {
    let a = if t < 0 {
        -t
    } else {
        t
    };
    let sign = if t < 0 {
        "-"@
    } else {
        Seq::empty()
    };
    sign + nat_text((a / 10) as nat) + "."@ + nat_text((a % 10) as nat)
}

/// The average age, rounded to one decimal digit.
pub open spec fn average_text(cs: Seq<ClassifiedView>) -> Seq<char> {
    tenths_text(rounded_tenths(age_total(cs), cs.len()))
}

/// The report on a non-empty batch.
pub open spec fn summary_text(cs: Seq<ClassifiedView>) -> Seq<char> {
    let o = cs[oldest_index(cs)].user;
    "Summary:\n- Average age is "@ + average_text(cs) + "\n- Oldest user is "@ + o.name
        + " (ID: "@ + int_text(o.id) + ") at age "@ + int_text(o.age)
        + "\n- Number of adults: "@ + nat_text(adult_count(cs))
}

/// The message for a batch with nobody in it.
pub open spec fn empty_batch_text() -> Seq<char> {
    "No users to summarize"@
}

/// The summary of a batch: its report, or an error when it is empty.
pub open spec fn summary_of(cs: Seq<ClassifiedView>) -> Result<Seq<char>, Seq<char>> {
    if cs.len() == 0 {
        Err(empty_batch_text())
    } else {
        Ok(summary_text(cs))
    }
}

/// The rounded tenths are the integer nearest to ten times `m / n`, the
/// greater one on a tie.
pub proof fn lemma_half_up_tenths(m: nat, n: nat)
    requires
        n > 0,
    ensures
        n * (2 * half_up_tenths(m, n) - 1) <= 20 * m < n * (2 * half_up_tenths(m, n) + 1),
{
    let x = 20 * m + n;
    let d = 2 * n;
    lemma_fundamental_div_mod(x as int, d as int);
    let q = x / d;
    assert(n * (2 * q - 1) == d * q - n && n * (2 * q + 1) == d * q + n) by (nonlinear_arith)
        requires
            d == 2 * n,
    ;
}

/// The average in tenths is the integer nearest to ten times `total / n`;
/// on a tie, the one farther from zero.
pub proof fn lemma_average_rounding(total: int, n: nat)
    requires
        n > 0,
    ensures
        ({
            let t = rounded_tenths(total, n);
            if total >= 0 {
                n * (2 * t - 1) <= 20 * total < n * (2 * t + 1)
            } else {
                n * (2 * t - 1) < 20 * total <= n * (2 * t + 1)
            }
        }),
{
    if total >= 0 {
        lemma_half_up_tenths(total as nat, n);
    } else {
        let h = half_up_tenths((-total) as nat, n) as int;
        lemma_half_up_tenths((-total) as nat, n);
        assert(n * (2 * (-h) - 1) == -(n * (2 * h + 1)) && n * (2 * (-h) + 1) == -(n * (2 * h - 1)))
            by (nonlinear_arith);
    }
}

/// The oldest entry is at least as old as every entry and strictly older
/// than every entry before it.
pub proof fn lemma_oldest_first(cs: Seq<ClassifiedView>)
    requires
        cs.len() > 0,
    ensures
        0 <= oldest_index(cs) < cs.len(),
        forall|j: int| 0 <= j < cs.len() ==> #[trigger] cs[j].user.age <= cs[oldest_index(cs)].user.age,
        forall|j: int| 0 <= j < oldest_index(cs) ==> #[trigger] cs[j].user.age < cs[oldest_index(cs)].user.age,
    decreases cs.len(),
{
    if cs.len() > 1 {
        let p = cs.drop_last();
        lemma_oldest_first(p);
        assert forall|j: int| 0 <= j < p.len() implies #[trigger] cs[j] == p[j] by {}
    }
}

/// Summarizes a batch: the average age rounded to one decimal digit, the
/// oldest user (the first of equal age) and the number of adults. An empty
/// batch is an error.
pub fn summarize_data(users_with_adult: Vec<ClassifiedUser>) -> (r: Result<String, ValidationError>)
    ensures
        text_result(r) == summary_of(classified_view(users_with_adult@)),
{
    let ghost cs = classified_view(users_with_adult@);
    let n = users_with_adult.len();
    if n == 0 {
        return Err(ValidationError(String::from_str("No users to summarize")));
    }
    let mut total: i128 = 0;
    let mut adults: usize = 0;
    let mut oldest: usize = 0;
    let mut i: usize = 0;
    while i < n
        invariant
            n == users_with_adult@.len(),
            cs == classified_view(users_with_adult@),
            0 <= i <= n,
            oldest < n,
            oldest <= i,
            total == age_total(cs.take(i as int)),
            -2147483648 * i <= total <= 2147483647 * i,
            adults == adult_count(cs.take(i as int)),
            adults <= i,
            i > 0 ==> oldest == oldest_index(cs.take(i as int)),
        decreases n - i,
    {
        let c = &users_with_adult[i];
        assert(cs.take(i + 1).drop_last() =~= cs.take(i as int));
        assert(cs.take(i + 1).last() == cs[i as int]);
        total = total + c.user.age as i128;
        if c.is_adult {
            adults = adults + 1;
        }
        if c.user.age > users_with_adult[oldest].user.age {
            oldest = i;
        }
        i = i + 1;
    }
    assert(cs.take(n as int) =~= cs);
    let nn = n as u128;
    let magnitude: u128 = if total >= 0 {
        total as u128
    } else {
        (-total) as u128
    };
    assert(20 * magnitude + nn < 0x1_0000_0000_0000_0000_0000_0000_0000_0000) by (nonlinear_arith)
        requires
            magnitude <= 2147483648 * nn,
            nn < 0x1_0000_0000_0000_0000,
    ;
    let tenths = (20 * magnitude + nn) / (2 * nn);
    let mut s = String::from_str("Summary:\n- Average age is ");
    if total < 0 && tenths > 0 {
        s.append("-");
    }
    push_nat(&mut s, tenths / 10);
    s.append(".");
    push_nat(&mut s, tenths % 10);
    let o = &users_with_adult[oldest].user;
    s.append("\n- Oldest user is ");
    s.append(o.name.as_str());
    s.append(" (ID: ");
    push_int(&mut s, o.id);
    s.append(") at age ");
    push_int(&mut s, o.age);
    s.append("\n- Number of adults: ");
    push_nat(&mut s, adults as u128);
    assert(s@ =~= summary_text(cs));
    Ok(s)
}

} // verus!
