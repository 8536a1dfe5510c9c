//! The data of the portal's modules.

pub mod calendar;
pub mod file_storage;
pub mod lessons;
pub mod messages;
pub mod timetable;
