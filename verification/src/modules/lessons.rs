//! Lessons: what an entry of a lesson holds.

use vstd::prelude::*;

verus! {

#[derive(Debug, Clone)]
pub struct Attachment {
    pub name: String,
    pub url: String,
}

#[derive(Debug, Clone)]
pub struct Homework {
    pub description: String,
    pub completed: bool,
}

#[derive(Debug, Clone)]
pub struct LessonUploadInfoStart {
    pub date: String,
    pub time: String,
}

#[derive(Debug, Clone)]
pub struct LessonUploadInfoOwnFile {
    pub name: String,
    pub url: String,
    pub index: i32,
    pub comment: Option<String>,
}

#[derive(Debug, Clone)]
pub struct LessonUploadInfoPublicFile {
    pub name: String,
    pub url: String,
    pub index: i32,
    pub person: String,
}

#[derive(Debug, Clone)]
pub struct LessonUploadFileStatus {
    pub name: String,
    pub status: String,
    pub message: Option<String>,
}

#[derive(Debug, Clone)]
pub struct LessonMark {
    pub name: String,
    pub date: String,
    pub mark: String,
    pub comment: Option<String>,
}

#[derive(Debug, Clone)]
pub struct LessonExam {
    pub date: String,
    pub name: String,
    pub finished: bool,
}

#[derive(Debug, Clone)]
pub enum LessonUploadError {
    /// Happens if the upload has no info
    NoInfo,
    /// Happens if course or entry id is missing, as when no upload form exists
    NoDetailedInfo,
    Network(String),
    WrongPassword,
    EncryptionFailed(String),
    /// Deletion was not possible (server side)
    DeletionFailed,
    Unknown,
    UnknownServerError,
}

} // verus!
