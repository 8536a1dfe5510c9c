//! The timetable: where it comes from and how a lesson stands.

use crate::base::account::UntisSecrets;
use vstd::prelude::*;

verus! {

#[derive(Clone, Eq, PartialEq, Ord, PartialOrd, Hash, Debug)]
pub enum Provider {
    Lanis(LanisType),
    Untis(UntisSecrets),
}

#[derive(Clone, Copy, Eq, PartialEq, Ord, PartialOrd, Hash, Debug)]
pub enum LanisType {
    All,
    Own,
}

#[derive(Clone, Copy, Eq, PartialEq, Ord, PartialOrd, Hash, Debug)]
pub enum LessonEntryStatus {
    Normal,
    Abnormal,
    Cancelled,
}

} // verus!
