//! Verified core of the pySTAMPS native runtime: stage planning, the stage
//! inventory, command-line and form validation, MAT v5 encoding and decoding,
//! and the integer graph helpers used by the processing stages.

pub mod text;
pub mod stages;
pub mod mat;
pub mod core_error;
pub mod plan;
pub mod dataset;
pub mod web;
pub mod cli;
pub mod graph;
pub mod calendar;
pub mod stage_checks;
pub mod stage8;
pub mod stage6;
pub mod stage7;
pub mod weed;
pub mod interp;
pub mod stage5;
pub mod stage1;
pub mod stage4;
pub mod stage2;
pub mod parity;
pub mod select;
pub mod grid;
pub mod uw_grid;
