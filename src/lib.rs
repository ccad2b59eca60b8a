//! Orchestration core of a cargo spaceport: the job table of the periodic
//! scheduler, the cargo lifecycle over a table of records, the enrichment
//! steps around the external text generator, and the subscriber registry of
//! the broadcast hub.

pub mod schedule;
pub mod cargo;
pub mod table;
pub mod text_info;
pub mod enrich;
pub mod hub;
pub mod lookup;
