//! The two record kinds of the store, users and locations, and the checks
//! that every record passes before it is written.
use vstd::prelude::*;
use vstd::string::StrSliceExecFns;

use crate::ieee::{
    f32_equal, f32_eq, f32_finite, f32_is_finite, f32_rank, f32_rank_of, f64_equal, f64_eq,
    f64_finite, f64_is_finite, f64_rank, f64_rank_of,
};
use crate::time::{LocalTime, UtcTime};

verus! {

/// Longest username, in characters.
pub const USERNAME_MAX: usize = 32;

/// Longest password, in characters.
pub const PASSWORD_MAX: usize = 64;

/// Bit pattern of `90.0_f64`, the largest latitude in degrees.
pub const LATITUDE_LIMIT: u64 = 0x4056_8000_0000_0000;

/// Bit pattern of `180.0_f64`, the largest longitude in degrees.
pub const LONGITUDE_LIMIT: u64 = 0x4066_8000_0000_0000;

/// Bit pattern of `1000.0_f64`: altitudes go down to -1000 m.
pub const ALTITUDE_DEPTH: u64 = 0x408f_4000_0000_0000;

/// Bit pattern of `10000.0_f64`: altitudes go up to 10000 m.
pub const ALTITUDE_HEIGHT: u64 = 0x40c3_8800_0000_0000;

/// Bit pattern of `100.0_f32`, the largest accuracy in meters.
pub const ACCURACY_LIMIT: u32 = 0x42c8_0000;

/// Why a record was refused before it reached storage.
#[derive(Clone, Copy, Debug, PartialEq, Eq, Structural)]
pub enum ValidationError {
    UsernameTooLong,
    PasswordTooLong,
    LatitudeNotFinite,
    LongitudeNotFinite,
    AltitudeNotFinite,
    AccuracyNotFinite,
    LatitudeOutOfBounds,
    LongitudeOutOfBounds,
    AltitudeOutOfBounds,
    AccuracyOutOfBounds,
    TimeMismatch,
}

/// The check that a record passes before any write reaches storage.
pub trait SanityCheck {
    /// The outcome of the check: `Ok` for a record that may be stored, or
    /// the first rule that it breaks.
    spec fn verdict(&self) -> Result<(), ValidationError>;

    fn sanity_check(&self) -> (r: Result<(), ValidationError>)
        ensures
            r == self.verdict(),
    ;
}

/// Something that reports a location, such as a payload of a logging app.
pub trait LocationGen {
    /// The location reported, on behalf of `username`.
    fn to_location(&self, username: &str) -> Location;
}

/// A user row: the username is the key.
#[derive(Clone, Debug)]
pub struct User {
    pub username: String,
    pub password: String,
}

impl User {
    /// The outcome of `sanity_check`: the first limit that is broken.
    pub open spec fn check(self) -> Result<(), ValidationError> {
        if self.username@.len() > USERNAME_MAX {
            Err(ValidationError::UsernameTooLong)
        } else if self.password@.len() > PASSWORD_MAX {
            Err(ValidationError::PasswordTooLong)
        } else {
            Ok(())
        }
    }

}

impl SanityCheck for User {
    open spec fn verdict(&self) -> Result<(), ValidationError> {
        self.check()
    }

    fn sanity_check(&self) -> (r: Result<(), ValidationError>) {
        if self.username.as_str().unicode_len() > USERNAME_MAX {
            Err(ValidationError::UsernameTooLong)
        } else if self.password.as_str().unicode_len() > PASSWORD_MAX {
            Err(ValidationError::PasswordTooLong)
        } else {
            Ok(())
        }
    }
}

/// Where a location came from.
#[derive(Clone, Copy, Debug, PartialEq, Eq, Structural)]
pub enum Source {
    /// Pushed by the GPSLogger app, or imported from its CSV files.
    GpsLogger,
}

/// A location row. `(username, time_utc)` is its key.
///
/// Coordinates are held as bit patterns (see `crate::ieee`): `latitude` and
/// `longitude` in degrees and `altitude` in meters above the WGS84 ellipsoid
/// as binary64, `accuracy` in meters as binary32.
#[derive(Clone, Debug)]
pub struct Location {
    pub username: String,
    pub time_utc: UtcTime,
    pub time_local: LocalTime,
    pub latitude: u64,
    pub longitude: u64,
    pub altitude: u64,
    pub accuracy: Option<u32>,
    pub source: Source,
}

pub open spec fn accuracy_finite(a: Option<u32>) -> bool {
    match a {
        Some(bits) => f32_finite(bits),
        None => true,
    }
}

pub open spec fn accuracy_in_bounds(a: Option<u32>) -> bool {
    match a {
        Some(bits) => 0 <= f32_rank(bits) <= ACCURACY_LIMIT,
        None => true,
    }
}

pub open spec fn accuracy_equal(a: Option<u32>, b: Option<u32>) -> bool {
    match (a, b) {
        (Some(x), Some(y)) => f32_equal(x, y),
        (None, None) => true,
        _ => false,
    }
}

impl Location {
    /// The record's identity in the store.
    pub open spec fn key(self) -> (Seq<char>, UtcTime) {
        (self.username@, self.time_utc)
    }

    /// The outcome of `sanity_check`: finiteness first, then the bounds, then
    /// the agreement of the two times; the first broken rule is reported.
    pub open spec fn check(self) -> Result<(), ValidationError> {
        if !f64_finite(self.latitude) {
            Err(ValidationError::LatitudeNotFinite)
        } else if !f64_finite(self.longitude) {
            Err(ValidationError::LongitudeNotFinite)
        } else if !f64_finite(self.altitude) {
            Err(ValidationError::AltitudeNotFinite)
        } else if !accuracy_finite(self.accuracy) {
            Err(ValidationError::AccuracyNotFinite)
        } else if !(-LATITUDE_LIMIT <= f64_rank(self.latitude) <= LATITUDE_LIMIT) {
            Err(ValidationError::LatitudeOutOfBounds)
        } else if !(-LONGITUDE_LIMIT <= f64_rank(self.longitude) <= LONGITUDE_LIMIT) {
            Err(ValidationError::LongitudeOutOfBounds)
        } else if !(-ALTITUDE_DEPTH <= f64_rank(self.altitude) <= ALTITUDE_HEIGHT) {
            Err(ValidationError::AltitudeOutOfBounds)
        } else if !accuracy_in_bounds(self.accuracy) {
            Err(ValidationError::AccuracyOutOfBounds)
        } else if self.time_local.spec_to_utc() != Some(self.time_utc) {
            Err(ValidationError::TimeMismatch)
        } else {
            Ok(())
        }
    }

    pub open spec fn valid(self) -> bool {
        self.check() is Ok
    }

    /// Field-for-field equality, with coordinates compared as numbers.
    pub open spec fn same_as(self, other: Location) -> bool {
        &&& self.username@ == other.username@
        &&& self.time_utc == other.time_utc
        &&& self.time_local == other.time_local
        &&& f64_equal(self.latitude, other.latitude)
        &&& f64_equal(self.longitude, other.longitude)
        &&& f64_equal(self.altitude, other.altitude)
        &&& accuracy_equal(self.accuracy, other.accuracy)
        &&& self.source == other.source
    }

    /// Whether the two records agree in every field (see `same_as`).
    pub fn same_record(&self, other: &Location) -> (r: bool)
        ensures
            r == self.same_as(*other),
    {
        let acc = match (self.accuracy, other.accuracy) {
            (Some(x), Some(y)) => f32_eq(x, y),
            (None, None) => true,
            _ => false,
        };
        self.username == other.username && self.time_utc.same_instant(&other.time_utc)
            && self.time_local == other.time_local && f64_eq(self.latitude, other.latitude)
            && f64_eq(self.longitude, other.longitude) && f64_eq(self.altitude, other.altitude)
            && acc && self.source == other.source
    }
}

impl SanityCheck for Location {
    open spec fn verdict(&self) -> Result<(), ValidationError> {
        self.check()
    }

    fn sanity_check(&self) -> (r: Result<(), ValidationError>) {
        if !f64_is_finite(self.latitude) {
            return Err(ValidationError::LatitudeNotFinite);
        }
        if !f64_is_finite(self.longitude) {
            return Err(ValidationError::LongitudeNotFinite);
        }
        if !f64_is_finite(self.altitude) {
            return Err(ValidationError::AltitudeNotFinite);
        }
        if let Some(a) = self.accuracy {
            if !f32_is_finite(a) {
                return Err(ValidationError::AccuracyNotFinite);
            }
        }
        let lat = f64_rank_of(self.latitude);
        if !(-(LATITUDE_LIMIT as i64) <= lat && lat <= LATITUDE_LIMIT as i64) {
            return Err(ValidationError::LatitudeOutOfBounds);
        }
        let lon = f64_rank_of(self.longitude);
        if !(-(LONGITUDE_LIMIT as i64) <= lon && lon <= LONGITUDE_LIMIT as i64) {
            return Err(ValidationError::LongitudeOutOfBounds);
        }
        let alt = f64_rank_of(self.altitude);
        if !(-(ALTITUDE_DEPTH as i64) <= alt && alt <= ALTITUDE_HEIGHT as i64) {
            return Err(ValidationError::AltitudeOutOfBounds);
        }
        if let Some(a) = self.accuracy {
            let acc = f32_rank_of(a);
            if !(0 <= acc && acc <= ACCURACY_LIMIT as i32) {
                return Err(ValidationError::AccuracyOutOfBounds);
            }
        }
        match self.time_local.to_utc() {
            Some(t) => {
                if !t.same_instant(&self.time_utc) {
                    return Err(ValidationError::TimeMismatch);
                }
            },
            None => {
                return Err(ValidationError::TimeMismatch);
            },
        }
        Ok(())
    }
}

impl PartialEq for Location {
    fn eq(&self, other: &Location) -> bool {
        self.same_record(other)
    }
}

impl vstd::std_specs::cmp::PartialEqSpecImpl for Location {
    open spec fn obeys_eq_spec() -> bool {
        true
    }

    open spec fn eq_spec(&self, other: &Location) -> bool {
        self.same_as(*other)
    }
}

} // verus!
