//! Settings of the command-line program.
use vstd::prelude::*;

use crate::db::Config as DbConfig;
use crate::server::Config as ServerConfig;

verus! {

/// The whole configuration file: the server's part and the database's part.
#[derive(Clone, Debug)]
pub struct Config {
    pub https: ServerConfig,
    pub db: DbConfig,
}

/// File types that can be imported.
#[derive(Clone, Copy, Debug, PartialEq, Eq, Structural)]
pub enum ImportFormat {
    /// The CSV files that the GPSLogger app writes.
    GpsLoggerCsv,
}

} // verus!
