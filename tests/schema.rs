use crataegus::ieee::{f32_eq, f64_eq, f64_is_finite, f64_rank_of};
use crataegus::schema::{Location, SanityCheck, Source, User, ValidationError};
use crataegus::time::{LocalTime, UtcTime};

fn utc(s: &str) -> UtcTime {
    let dt = chrono::DateTime::parse_from_rfc3339(s).unwrap();
    UtcTime { secs: dt.timestamp(), nanos: dt.timestamp_subsec_nanos() }
}

fn local(s: &str) -> LocalTime {
    let dt = chrono::DateTime::parse_from_rfc3339(s).unwrap();
    LocalTime {
        wall_secs: dt.naive_local().and_utc().timestamp(),
        nanos: dt.timestamp_subsec_nanos(),
        offset_secs: dt.offset().local_minus_utc(),
    }
}

fn sample() -> Location {
    Location {
        username: "test".to_string(),
        time_utc: utc("2025-01-16T03:54:51.000Z"),
        time_local: local("2025-01-16T02:54:51.000-01:00"),
        latitude: 41.74108695983887f64.to_bits(),
        longitude: (-91.84490871429443f64).to_bits(),
        altitude: 1387.0f64.to_bits(),
        accuracy: Some(6.0f32.to_bits()),
        source: Source::GpsLogger,
    }
}

#[test]
fn valid_location_passes() {
    assert_eq!(sample().sanity_check(), Ok(()));
}

#[test]
fn local_time_converts_to_utc() {
    let l = local("2025-01-15T20:54:51.000-07:00");
    assert_eq!(l.offset_secs, -25200);
    assert_eq!(l.to_utc(), Some(utc("2025-01-16T03:54:51.000Z")));
    let far = LocalTime { wall_secs: i64::MAX, nanos: 0, offset_secs: -1 };
    assert_eq!(far.to_utc(), None);
}

#[test]
fn non_finite_values_are_refused() {
    let mut l = sample();
    l.latitude = f64::NAN.to_bits();
    assert_eq!(l.sanity_check(), Err(ValidationError::LatitudeNotFinite));
    let mut l = sample();
    l.longitude = f64::INFINITY.to_bits();
    assert_eq!(l.sanity_check(), Err(ValidationError::LongitudeNotFinite));
    let mut l = sample();
    l.altitude = f64::NEG_INFINITY.to_bits();
    assert_eq!(l.sanity_check(), Err(ValidationError::AltitudeNotFinite));
    let mut l = sample();
    l.accuracy = Some(f32::NAN.to_bits());
    assert_eq!(l.sanity_check(), Err(ValidationError::AccuracyNotFinite));
}

#[test]
fn bounds_are_inclusive() {
    let mut l = sample();
    l.latitude = (-90.0f64).to_bits();
    l.longitude = 180.0f64.to_bits();
    l.altitude = (-1000.0f64).to_bits();
    l.accuracy = Some(100.0f32.to_bits());
    assert_eq!(l.sanity_check(), Ok(()));
    l.altitude = 10000.0f64.to_bits();
    l.accuracy = Some((-0.0f32).to_bits());
    assert_eq!(l.sanity_check(), Ok(()));
    l.accuracy = None;
    assert_eq!(l.sanity_check(), Ok(()));
}

#[test]
fn out_of_bounds_values_are_refused() {
    let mut l = sample();
    l.latitude = 90.000001f64.to_bits();
    assert_eq!(l.sanity_check(), Err(ValidationError::LatitudeOutOfBounds));
    let mut l = sample();
    l.longitude = (-180.5f64).to_bits();
    assert_eq!(l.sanity_check(), Err(ValidationError::LongitudeOutOfBounds));
    let mut l = sample();
    l.altitude = (-1000.1f64).to_bits();
    assert_eq!(l.sanity_check(), Err(ValidationError::AltitudeOutOfBounds));
    let mut l = sample();
    l.altitude = 10000.5f64.to_bits();
    assert_eq!(l.sanity_check(), Err(ValidationError::AltitudeOutOfBounds));
    let mut l = sample();
    l.accuracy = Some(100.5f32.to_bits());
    assert_eq!(l.sanity_check(), Err(ValidationError::AccuracyOutOfBounds));
    let mut l = sample();
    l.accuracy = Some((-1.0f32).to_bits());
    assert_eq!(l.sanity_check(), Err(ValidationError::AccuracyOutOfBounds));
}

#[test]
fn finiteness_is_checked_before_bounds() {
    let mut l = sample();
    l.latitude = 95.0f64.to_bits();
    l.accuracy = Some(f32::INFINITY.to_bits());
    assert_eq!(l.sanity_check(), Err(ValidationError::AccuracyNotFinite));
}

#[test]
fn times_must_agree() {
    let mut l = sample();
    l.time_utc.secs += 1;
    assert_eq!(l.sanity_check(), Err(ValidationError::TimeMismatch));
    l.time_local.wall_secs += 1;
    assert_eq!(l.sanity_check(), Ok(()));
    l.time_local.nanos = 500_000_000;
    assert_eq!(l.sanity_check(), Err(ValidationError::TimeMismatch));
}

#[test]
fn float_patterns_compare_as_numbers() {
    assert!(f64_eq(0.0f64.to_bits(), (-0.0f64).to_bits()));
    assert!(!f64_eq(f64::NAN.to_bits(), f64::NAN.to_bits()));
    assert!(f64_eq(1.5f64.to_bits(), 1.5f64.to_bits()));
    assert!(!f64_eq(1.5f64.to_bits(), 1.25f64.to_bits()));
    assert!(f32_eq(0.0f32.to_bits(), (-0.0f32).to_bits()));
    assert!(!f64_is_finite(f64::INFINITY.to_bits()));
    assert!(f64_is_finite(f64::MAX.to_bits()));
    assert!(f64_rank_of((-2.0f64).to_bits()) < f64_rank_of((-1.0f64).to_bits()));
    assert!(f64_rank_of((-1.0f64).to_bits()) < f64_rank_of(0.5f64.to_bits()));
    assert_eq!(f64_rank_of((-0.0f64).to_bits()), 0);
}

#[test]
fn records_compare_field_by_field() {
    let a = sample();
    let mut b = sample();
    assert_eq!(a, b);
    b.altitude = (-0.0f64).to_bits();
    let mut c = sample();
    c.altitude = 0.0f64.to_bits();
    assert_eq!(b, c);
    assert_ne!(a, c);
    let mut d = sample();
    d.time_local = local("2025-01-16T04:54:51.000+01:00");
    assert_eq!(d.sanity_check(), Ok(()));
    assert_ne!(a, d);
    let mut e = sample();
    e.accuracy = None;
    assert_ne!(a, e);
    assert!(a.same_record(&a.clone()));
}

#[test]
fn user_limits_count_characters() {
    let ok = User { username: "u".repeat(32), password: "p".repeat(64) };
    assert_eq!(ok.sanity_check(), Ok(()));
    let long_name = User { username: "u".repeat(33), password: "p".to_string() };
    assert_eq!(long_name.sanity_check(), Err(ValidationError::UsernameTooLong));
    let long_pass = User { username: "u".to_string(), password: "p".repeat(65) };
    assert_eq!(long_pass.sanity_check(), Err(ValidationError::PasswordTooLong));
    let wide = User { username: "é".repeat(32), password: "p".to_string() };
    assert_eq!(wide.sanity_check(), Ok(()));
}
