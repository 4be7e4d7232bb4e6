use jacanaoesta::date::Date;
use jacanaoesta::user::{inactive_users, User};

fn user(name: &str, last_status_at: Option<&str>) -> User {
    User::new(
        format!("id-{}", name),
        name.to_string(),
        format!("{}@example.test", name),
        format!("https://example.test/@{}", name),
        false,
        last_status_at,
    )
}

fn day(text: &str) -> Date {
    Date::parse(text).unwrap()
}

#[test]
fn dates_are_read_as_day_numbers() {
    assert_eq!(day("2024-06-01").num_days_from_ce(), 739038);
    assert_eq!(day("2023-10-01").num_days_from_ce(), 738794);
    assert_eq!(day("1970-01-01").num_days_from_ce(), 719163);
    assert_eq!(day("0001-01-01").num_days_from_ce(), 1);
    assert_eq!(day("2024-02-29").num_days_from_ce(), 738945);
    assert_eq!(day("2024-06-01"), Date::from_num_days_from_ce(739038));
    assert_eq!(Date::from_num_days_from_ce(-5).num_days_from_ce(), -5);
}

#[test]
fn what_spells_no_date_is_no_date() {
    assert_eq!(Date::parse(""), None);
    assert_eq!(Date::parse("yesterday"), None);
    assert_eq!(Date::parse("2023-02-29"), None);
    assert_eq!(Date::parse("2024-13-01"), None);
    assert_eq!(Date::parse("2024-06-01T10:00:00Z"), None);
    assert_eq!(Date::parse("01/06/2024"), None);
}

#[test]
fn a_user_keeps_its_fields() {
    let u = User::new(
        "42".to_string(),
        "ana".to_string(),
        "ana@example.test".to_string(),
        "https://example.test/@ana".to_string(),
        true,
        Some("2024-05-01"),
    );
    assert_eq!(u.id, "42");
    assert_eq!(u.username, "ana");
    assert_eq!(u.acct, "ana@example.test");
    assert_eq!(u.url, "https://example.test/@ana");
    assert!(u.bot);
    assert_eq!(u.last_status_at, Some(Date::from_num_days_from_ce(739007)));
    assert_eq!(user("b", None).last_status_at, None);
    assert_eq!(user("c", Some("not a date")).last_status_at, None);
}

#[test]
fn without_a_last_post_never_active() {
    let u = user("a", None);
    for days in [1, 2, 180, 100_000, i32::MAX] {
        for today in [i32::MIN, -1, 0, 1, 739038, i32::MAX] {
            assert!(!u.is_active(days, Date::from_num_days_from_ce(today)));
        }
    }
    let unread = user("b", Some("soon"));
    assert!(!unread.is_active(180, day("2024-06-01")));
}

#[test]
fn inactive_exactly_before_the_limit() {
    let today = day("2024-06-01");
    assert!(user("a", Some("2023-12-04")).is_active(180, today));
    assert!(!user("a", Some("2023-12-03")).is_active(180, today));
    assert!(user("a", Some("2023-12-05")).is_active(180, today));
    assert!(user("a", Some("2024-06-01")).is_active(1, today));
    assert!(user("a", Some("2024-05-31")).is_active(1, today));
    assert!(!user("a", Some("2024-05-30")).is_active(1, today));
    assert!(user("a", Some("2024-06-02")).is_active(180, today));
}

#[test]
fn the_limit_is_counted_without_overflow() {
    let mut u = user("a", None);
    u.last_status_at = Some(Date::from_num_days_from_ce(i32::MIN));
    assert!(u.is_active(i32::MAX, Date::from_num_days_from_ce(i32::MIN)));
    assert!(u.is_active(1, Date::from_num_days_from_ce(i32::MIN)));
    assert!(!u.is_active(1, Date::from_num_days_from_ce(i32::MIN + 2)));
    u.last_status_at = Some(Date::from_num_days_from_ce(i32::MAX));
    assert!(u.is_active(1, Date::from_num_days_from_ce(i32::MAX)));
    u.last_status_at = Some(Date::from_num_days_from_ce(0));
    assert!(u.is_active(i32::MAX, Date::from_num_days_from_ce(i32::MAX)));
    u.last_status_at = Some(Date::from_num_days_from_ce(-1));
    assert!(!u.is_active(i32::MAX, Date::from_num_days_from_ce(i32::MAX)));
}

#[test]
fn half_a_year_of_silence_is_inactive() {
    let today = day("2024-06-01");
    let quiet = user("quiet", Some("2023-10-01"));
    let busy = user("busy", Some("2024-05-01"));
    assert_eq!(today.num_days_from_ce() - quiet.last_status_at.unwrap().num_days_from_ce(), 244);
    assert_eq!(today.num_days_from_ce() - busy.last_status_at.unwrap().num_days_from_ce(), 31);
    assert!(!quiet.is_active(180, today));
    assert!(busy.is_active(180, today));
}

#[test]
fn the_inactive_are_listed_in_order() {
    let today = day("2024-06-01");
    let users = vec![
        user("a", Some("2023-10-01")),
        user("b", Some("2024-05-01")),
        user("c", None),
        user("d", Some("2023-12-04")),
        user("e", Some("2023-12-03")),
    ];
    let found = inactive_users(&users, 180, today);
    let names: Vec<&str> = found.iter().map(|u| u.username.as_str()).collect();
    assert_eq!(names, vec!["a", "c", "e"]);
    assert_eq!(inactive_users(&Vec::new(), 180, today).len(), 0);
    let all = inactive_users(&users, 1, today);
    assert_eq!(all.len(), 5);
}
