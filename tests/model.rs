use kimai_timesheet::text::decimal_of;
use kimai_timesheet::model::{default_start_time, Activity, Project, TimeOfDay};

#[test]
fn activity_label_with_parent_title() {
    let a = Activity { id: 1, parent_title: Some("Engineering".to_string()), name: "Coding".to_string() };
    assert_eq!(a.display(), "Engineering | Coding");
}

#[test]
fn activity_label_without_parent_title() {
    let a = Activity { id: 1, parent_title: None, name: "Coding".to_string() };
    assert_eq!(a.display(), "Coding");
}

#[test]
fn project_label_is_its_name() {
    let p = Project { id: 3, name: "Acme".to_string() };
    assert_eq!(p.display(), "Acme");
}

#[test]
fn time_of_day_parts() {
    let t = TimeOfDay::from_hms(14, 30, 5).unwrap();
    assert_eq!(t.seconds, 52205);
    assert!(TimeOfDay::from_hms(24, 0, 0).is_none());
    assert!(TimeOfDay::from_hms(1, 60, 0).is_none());
    assert_eq!(default_start_time(), TimeOfDay::from_hms(9, 0, 0).unwrap());
}

#[test]
fn decimal_numerals() {
    assert_eq!(decimal_of(0), "0");
    assert_eq!(decimal_of(7), "7");
    assert_eq!(decimal_of(1090), "1090");
    assert_eq!(decimal_of(-42), "-42");
    assert_eq!(decimal_of(i64::MIN), "-9223372036854775808");
    assert_eq!(decimal_of(i64::MAX), "9223372036854775807");
}
