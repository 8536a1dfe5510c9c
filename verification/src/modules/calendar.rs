//! Calendar entries and the exports the calendar offers.

use vstd::prelude::*;

verus! {

/// A person or a group that a calendar entry names.
#[derive(Clone, Eq, PartialEq, Ord, PartialOrd, Hash, Debug)]
pub struct CalendarEntryPerson {
    pub id: String,
    pub name: String,
}

/// The study group of an entry.
#[derive(Clone, Eq, PartialEq, Ord, PartialOrd, Hash, Debug)]
pub struct StudyGroup {
    pub id: i32,
    pub name: String,
}

impl StudyGroup {
    pub fn new(id: i32, name: String) -> (group: StudyGroup)
        ensures
            group.id == id,
            group.name == name,
    {
        Self { id, name }
    }
}

#[derive(Clone, Eq, PartialEq, Ord, PartialOrd, Hash, Debug)]
pub struct CalendarEntryCategory {
    pub id: i32,
    pub name: String,
    /// a hexadecimal color (css)
    pub color: String,
}

#[derive(Clone, Eq, PartialEq, Ord, PartialOrd, Hash, Debug)]
pub struct CalendarExports {
    /// All available years (PDF and CSV). These are school years: 2024 is
    /// 2024/2025.
    pub available_years: Vec<i32>,
}

#[derive(Clone, Copy, Eq, PartialEq, Ord, PartialOrd, Hash, Debug)]
pub enum CalendarExportFileType {
    PDF(CalendarExportFileTypePDF),
    /// The year, which must be available
    CSV(i32),
    /// The year, which must be available
    ICS(i32),
}

#[derive(Clone, Copy, Eq, PartialEq, Ord, PartialOrd, Hash, Debug)]
pub enum CalendarExportFileTypePDF {
    CurrentDay,
    NextDay,
    CurrentWeek,
    NextWeek,
    /// The year, which must be available
    YearSimple(i32),
    /// The year, which must be available
    YearDetailed(i32),
    /// The year, which must be available
    YearMonthView(i32),
}

impl CalendarExports {
    pub fn new(available_years: Vec<i32>) -> (exports: CalendarExports)
        ensures
            exports.available_years == available_years,
    {
        Self { available_years }
    }
}

} // verus!
