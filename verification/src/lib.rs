//! Calabi watches a service status feed and wagers on prediction markets
//! that are tied to a calendar day and an incident class.
//!
//! The crate holds the rules: how a status indicator is classified, which
//! markets become targets, when a target has expired, which targets a poll
//! cycle wagers on, and which contracts are never wagered on twice.
//! Network calls, sleeping and task supervision belong to the program around it.

pub mod calendar;
pub mod markets;
pub mod registry;
pub mod scanner;
pub mod status;
pub mod text;
pub mod venue;
