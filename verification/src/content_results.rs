//! The trusted text results of one job: what is stored, what may be generated,
//! and which checks stand between a model's answer and a published record.

pub mod assembly;
pub mod chunks;
pub mod connection;
pub mod current;
pub mod digest;
pub mod endpoint;
pub mod error;
pub mod evidence;
pub mod execute;
pub mod generation;
pub mod kinds;
pub mod lexical;
pub mod provenance;
pub mod publishing;
pub mod record;
pub mod rules;
pub mod saving;
pub mod search;
pub mod sources;
pub mod target;
