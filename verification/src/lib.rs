//! Verified core of a synthetic event producer: its settings, the schedule
//! by which random messages are generated, the configuration of the
//! producers and the decisions of the production loop.

pub mod generator;
pub mod producer;
pub mod settings;
pub mod text;
