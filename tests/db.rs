use crataegus::db::{busy_retry_delay, BUSY_ATTEMPTS, BUSY_BACKOFF_MS};
use crataegus::db::{
    after_location_write, after_original_read, after_user_write, check_location_insert,
    check_password, check_user_insert, require_user, InsertStep, StoreError, WriteOutcome,
};
use crataegus::schema::{Location, Source, User, ValidationError};
use crataegus::time::{LocalTime, UtcTime};

fn utc(s: &str) -> UtcTime {
    let dt = chrono::DateTime::parse_from_rfc3339(s).unwrap();
    UtcTime { secs: dt.timestamp(), nanos: dt.timestamp_subsec_nanos() }
}

/// The same instant on a clock one hour behind UTC.
fn west_one_hour(t: UtcTime) -> LocalTime {
    LocalTime { wall_secs: t.secs - 3600, nanos: t.nanos, offset_secs: -3600 }
}

fn location(username: &str, time: &str, value: f64) -> Location {
    let t = utc(time);
    Location {
        username: username.to_string(),
        time_utc: t,
        time_local: west_one_hour(t),
        latitude: value.to_bits(),
        longitude: value.to_bits(),
        altitude: value.to_bits(),
        accuracy: Some((value as f32).to_bits()),
        source: Source::GpsLogger,
    }
}

/// Runs the insert decisions against a database that answers the write with
/// `write` and holds `stored` under the key.
fn insert(loc: &Location, write: WriteOutcome, stored: Option<Location>) -> Result<bool, StoreError> {
    check_location_insert(loc)?;
    match after_location_write(loc, write) {
        InsertStep::Done(r) => r,
        InsertStep::ReadOriginal => after_original_read(loc.clone(), stored),
    }
}

#[test]
fn test_unique_constraint() {
    let loc = location("test", "2025-01-16T03:54:51.000Z", 0.0);
    assert_eq!(insert(&loc, WriteOutcome::Written, None).unwrap(), true);
    // adding again does nothing
    assert_eq!(insert(&loc, WriteOutcome::DuplicateKey, Some(loc.clone())).unwrap(), false);
    // the time changes but the two times no longer match
    let mut loc2 = loc.clone();
    loc2.time_utc.secs += 1;
    assert!(insert(&loc2, WriteOutcome::Written, None).is_err());
    loc2.time_local.wall_secs += 1;
    assert_eq!(insert(&loc2, WriteOutcome::Written, None).unwrap(), true);
    // same user and time with a different location
    let loc3 = location("test", "2025-01-16T03:54:51.000Z", 1.0);
    let err = insert(&loc3, WriteOutcome::DuplicateKey, Some(loc.clone())).unwrap_err();
    assert!(err
        .summary()
        .contains("Received user/time info that is duplicated, but other fields differ."));
    match err {
        StoreError::Conflict { original, received } => {
            assert_eq!(original, loc);
            assert_eq!(received, loc3);
        },
        other => panic!("unexpected error {:?}", other),
    }
}

#[test]
fn invalid_location_is_refused_before_the_write() {
    let mut loc = location("test", "2025-01-16T03:54:51.000Z", 0.0);
    loc.latitude = 91.0f64.to_bits();
    match check_location_insert(&loc) {
        Err(StoreError::Invalid(ValidationError::LatitudeOutOfBounds)) => {},
        other => panic!("unexpected result {:?}", other),
    }
}

#[test]
fn test_username_foreign_key_relation() {
    let loc = location("user", "2025-01-16T03:54:51.000Z", 0.0);
    // no such user yet
    match insert(&loc, WriteOutcome::UnknownUser, None) {
        Err(StoreError::UnknownUser(name)) => assert_eq!(name, "user"),
        other => panic!("unexpected result {:?}", other),
    }
    // once the user exists the write goes through
    assert_eq!(insert(&loc, WriteOutcome::Written, None).unwrap(), true);
}

#[test]
fn storage_failures_are_passed_on() {
    let loc = location("user", "2025-01-16T03:54:51.000Z", 0.0);
    match insert(&loc, WriteOutcome::Failed("database is locked".to_string()), None) {
        Err(StoreError::Storage(msg)) => assert_eq!(msg, "database is locked"),
        other => panic!("unexpected result {:?}", other),
    }
    match insert(&loc, WriteOutcome::DuplicateKey, None) {
        Err(StoreError::OriginalMissing) => {},
        other => panic!("unexpected result {:?}", other),
    }
}

#[test]
fn test_user_table() {
    let user = User { username: "user".to_string(), password: "pass".to_string() };
    assert_eq!(check_password(None, "pass").unwrap(), false);
    assert_eq!(check_password(Some(user.clone()), "pass").unwrap(), true);
    assert_eq!(check_password(Some(user.clone()), "wrong").unwrap(), false);
    let broken = User { username: "user".to_string(), password: "p".repeat(65) };
    match check_password(Some(broken), "pass") {
        Err(StoreError::Invalid(ValidationError::PasswordTooLong)) => {},
        other => panic!("unexpected result {:?}", other),
    }
}

#[test]
fn user_insert_decisions() {
    let user = User { username: "another_user".to_string(), password: "pass2".to_string() };
    assert!(check_user_insert(&user).is_ok());
    assert!(after_user_write(&user, WriteOutcome::Written).is_ok());
    match after_user_write(&user, WriteOutcome::DuplicateKey) {
        Err(StoreError::UserExists(name)) => assert_eq!(name, "another_user"),
        other => panic!("unexpected result {:?}", other),
    }
    let long = User { username: "x".repeat(40), password: String::new() };
    match check_user_insert(&long) {
        Err(StoreError::Invalid(ValidationError::UsernameTooLong)) => {},
        other => panic!("unexpected result {:?}", other),
    }
}

#[test]
fn count_needs_an_existing_user() {
    // counting for a user that does not exist fails
    match require_user("user1", false) {
        Err(StoreError::UnknownUser(name)) => assert_eq!(name, "user1"),
        other => panic!("unexpected result {:?}", other),
    }
    assert!(require_user("user1", true).is_ok());
}

#[test]
fn connection_url_creates_missing_file() {
    let c = crataegus::db::Config { path: "/var/lib/db.sqlite".to_string(), backups: 1 };
    assert_eq!(c.connection_url(), "sqlite:///var/lib/db.sqlite?mode=rwc");
}

#[test]
fn busy_writes_back_off_then_give_up() {
    assert_eq!(busy_retry_delay(0), Some(BUSY_BACKOFF_MS));
    assert_eq!(busy_retry_delay(1), Some(2 * BUSY_BACKOFF_MS));
    assert_eq!(busy_retry_delay(3), Some(8 * BUSY_BACKOFF_MS));
    assert_eq!(busy_retry_delay(BUSY_ATTEMPTS - 2), Some(BUSY_BACKOFF_MS << (BUSY_ATTEMPTS - 2)));
    assert_eq!(busy_retry_delay(BUSY_ATTEMPTS - 1), None);
    assert_eq!(busy_retry_delay(u32::MAX), None);
}
