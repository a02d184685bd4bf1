use user_pipeline::classify::add_is_adult;
use user_pipeline::records::{AgeInput, ClassifiedUser, User, ValidationError};
use user_pipeline::summary::summarize_data;
use user_pipeline::validate::{check_record, validate_data};

fn user(id: i32, name: &str, age: i32) -> User {
    User { id, name: name.to_string(), age }
}

fn classified(items: &[(i32, &str, i32)]) -> Vec<ClassifiedUser> {
    let users = items.iter().map(|(id, name, age)| user(*id, name, *age)).collect();
    add_is_adult(users).ok().unwrap()
}

fn summary(items: &[(i32, &str, i32)]) -> String {
    summarize_data(classified(items)).ok().unwrap()
}

fn average_line(items: &[(i32, &str, i32)]) -> String {
    summary(items).lines().nth(1).unwrap().to_string()
}

#[test]
fn validation_keeps_order() {
    let data = vec![
        (7, "Zed".to_string(), "41".to_string()),
        (3, "Amy".to_string(), "-2".to_string()),
        (9, "Bo".to_string(), "+18".to_string()),
    ];
    let users = validate_data(data).ok().unwrap();
    let seen: Vec<(i32, String, i32)> = users.iter().map(|u| (u.id, u.name.clone(), u.age)).collect();
    assert_eq!(
        seen,
        vec![(7, "Zed".to_string(), 41), (3, "Amy".to_string(), -2), (9, "Bo".to_string(), 18)]
    );
}

#[test]
fn classification_keeps_order_and_boundary() {
    let cs = classified(&[(1, "A", 17), (2, "B", 18), (3, "C", 0), (4, "D", 90)]);
    let seen: Vec<(i32, bool)> = cs.iter().map(|c| (c.user.id, c.is_adult)).collect();
    assert_eq!(seen, vec![(1, false), (2, true), (3, false), (4, true)]);
    assert_eq!(cs[1].user.name, "B");
    assert_eq!(cs[1].user.age, 18);
}

#[test]
fn average_rounds_to_one_decimal() {
    assert_eq!(average_line(&[(1, "A", 10), (2, "B", 11), (3, "C", 11)]), "- Average age is 10.7");
    assert_eq!(average_line(&[(1, "A", 10), (2, "B", 10), (3, "C", 11)]), "- Average age is 10.3");
    assert_eq!(average_line(&[(1, "A", 1), (2, "B", 2)]), "- Average age is 1.5");
    assert_eq!(average_line(&[(1, "A", 0), (2, "B", 0), (3, "C", 0), (4, "D", 1)]), "- Average age is 0.3");
    assert_eq!(average_line(&[(1, "A", -1), (2, "B", 0), (3, "C", 0), (4, "D", 0)]), "- Average age is -0.3");
    assert_eq!(average_line(&[(1, "A", -1), (2, "B", 0), (3, "C", 0), (4, "D", 0), (5, "E", 0), (6, "F", 0), (7, "G", 0), (8, "H", 0), (9, "I", 0), (10, "J", 0), (11, "K", 0), (12, "L", 0)]), "- Average age is -0.1");
    let mut near_zero = vec![(1, "A", -1)];
    near_zero.extend((2..=21).map(|id| (id, "Z", 0)));
    assert_eq!(average_line(&near_zero), "- Average age is 0.0");
    let mut tie = vec![(1, "A", -1)];
    tie.extend((2..=20).map(|id| (id, "Z", 0)));
    assert_eq!(average_line(&tie), "- Average age is -0.1");
    assert_eq!(average_line(&[(1, "A", 123)]), "- Average age is 123.0");
}

#[test]
fn average_of_extreme_ages() {
    assert_eq!(
        average_line(&[(1, "A", i32::MAX), (2, "B", i32::MAX), (3, "C", i32::MAX)]),
        "- Average age is 2147483647.0"
    );
    assert_eq!(average_line(&[(1, "A", i32::MIN), (2, "B", i32::MIN)]), "- Average age is -2147483648.0");
}

#[test]
fn oldest_tie_goes_to_first() {
    let s = summary(&[(1, "Ann", 30), (2, "Ben", 44), (3, "Cid", 44), (4, "Dee", 12)]);
    assert_eq!(s.lines().nth(2).unwrap(), "- Oldest user is Ben (ID: 2) at age 44");
    let s = summary(&[(5, "Eve", -3), (6, "Fay", -3)]);
    assert_eq!(s.lines().nth(2).unwrap(), "- Oldest user is Eve (ID: 5) at age -3");
}

#[test]
fn adult_count_line() {
    let s = summary(&[(1, "A", 17), (2, "B", 18), (3, "C", 65)]);
    assert_eq!(s.lines().nth(3).unwrap(), "- Number of adults: 2");
    let s = summary(&[(1, "A", 3)]);
    assert_eq!(s.lines().nth(3).unwrap(), "- Number of adults: 0");
}

#[test]
fn summary_of_empty_batch() {
    match summarize_data(Vec::new()) {
        Ok(s) => panic!("expected an error, got {}", s),
        Err(e) => assert_eq!(e.0, "No users to summarize"),
    }
}

#[test]
fn check_record_results() {
    let u = check_record(4, "Kim".to_string(), AgeInput::Text("-7".to_string())).ok().unwrap();
    assert_eq!((u.id, u.name.as_str(), u.age), (4, "Kim", -7));
    let e = check_record(4, "Kim".to_string(), AgeInput::Invalid("??".to_string()));
    assert_eq!(e.err().unwrap().0, "Invalid age value: ??");
    let e = check_record(4, "Kim".to_string(), AgeInput::Text("2147483648".to_string()));
    assert_eq!(e.err().unwrap().0, "Invalid age value: 2147483648");
}

#[test]
fn error_description() {
    let e = ValidationError("Invalid id value".to_string());
    assert_eq!(e.describe(), "Validation error: Invalid id value");
}
