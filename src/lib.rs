//! Turns a rehearsal workbook (a schedule sheet and a cast sheet) into
//! per-person lists of calendar events.
pub mod calendar;
pub mod cell;
pub mod config;
pub mod events;
pub mod gui;
pub mod numerals;
pub mod order;
pub mod parsing;
pub mod scheduler;
pub mod sorting;
pub mod structures;
pub mod text;
