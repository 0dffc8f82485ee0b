//! Core logic of a two-role delta backup system: a server distributes
//! versioned configuration to clients, clients launch scheduled backup jobs,
//! and each file travels as an rsync-style signature/delta exchange that the
//! server applies under a content-addressed storage path.

pub mod backup;
pub mod config;
pub mod daemon;
pub mod db;
pub mod job;
pub mod rsync;
pub mod schedule;
pub mod text;
