//! Location store core: the record model, its validation rules, and the
//! decisions that the store makes around its embedded database.
//!
//! - `schema`: users and locations, and the checks they pass before storage.
//! - `ieee`, `time`: coordinates as IEEE-754 bit patterns, times as integers.
//! - `db`: what each answer of the database means for an operation.
//! - `model`: the database's contents as a model, and the laws of the store.
//! - `backup`: backup names, target checks, and which old backups go.
//! - `export`, `exif`, `cli`, `server`: the GPX format, the photo walk, and
//!   settings.

pub mod backup;
pub mod cli;
pub mod db;
pub mod exif;
pub mod export;
pub mod ieee;
pub mod model;
pub mod schema;
pub mod server;
pub mod time;
