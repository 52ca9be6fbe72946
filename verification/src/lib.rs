//! Disk Helper core library: path handling, cleanup rules, scan bookkeeping,
//! quarantine and settings logic, with contracts checked by Verus.

pub mod ai;
pub mod audit;
pub mod cleanup;
pub mod commands;
pub mod config;
pub mod error;
pub mod glob;
pub mod ids;
pub mod index;
pub mod models;
pub mod paths;
pub mod quarantine;
pub mod rules;
pub mod scan;
pub mod suggest;
pub mod text;
pub mod time;
