//! The desktop window: what it shows, and what it does when the user acts.

pub mod actions;
pub mod adding;
pub mod controller;
pub mod detail;
pub mod fixture;
pub mod fixture_server;
pub mod busy;
pub mod operations;
pub mod rows;
pub mod settings;
pub mod startup;
pub mod worker;
