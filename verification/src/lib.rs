//! Client for the Lanis school portal: the portal's application-layer
//! encryption (key derivation, salted blobs, the symmetric cipher, the
//! key-exchange handshake, embedded-tag decoding, secrets at rest) and the
//! data that the portal's modules exchange.

pub mod base;
pub mod modules;
pub mod utils;

use vstd::prelude::*;

verus! {

/// A module of the portal that an account may have.
#[derive(Clone, Copy, Eq, PartialEq, Ord, PartialOrd, Hash, Debug)]
pub enum Feature {
    LanisTimetable,
    MeinUnttericht,
    FileStorage,
    MessagesBeta,
}

/// What can go wrong when talking to the portal.
#[derive(Clone, Eq, PartialEq, Ord, PartialOrd, Hash, Debug)]
pub enum Error {
    Network(String),
    /// Happens if anything goes wrong with parsing
    Parsing(String),
    Crypto(String),
    Html(String),
    /// Happens if something goes wrong when logging into Untis
    Credentials(String),
    /// Happens if anything goes wrong while accessing the Untis API
    UntisAPI(String),
    /// Happens if anything goes wrong when processing dates and times
    DateTime(String),
    /// Happens if something goes wrong with threads
    Threading(String),
    /// Happens if no school with the provided id is found
    NoSchool(String),
    /// Happens if key pair generation fails
    KeyPair,
    Login(String),
    /// Happens if a specific school couldn't be found
    SchoolNotFound(String),
    /// Happens if anything goes wrong with uploading a file in lessons
    LessonUploadError(LessonUploadError),
    /// Some other error that may be an issue with the provided values or with the portal
    ServerSide(String),
    /// Happens if anything goes wrong when interacting with the file system
    FileSystem(String),
}

/// What can go wrong when uploading a file to a lesson.
#[derive(Clone, Eq, PartialEq, Ord, PartialOrd, Hash, Debug)]
pub enum LessonUploadError {
    /// Happens if the upload has no info
    NoInfo,
    /// Happens if course or entry id is missing, as when no upload form exists
    NoDetailedInfo,
    Network(String),
    WrongPassword,
    EncryptionFailed(String),
    /// Deletion was not possible (server side)
    DeletionFailed,
    Unknown,
    UnknownServerError,
}

/// `prefix`, then `inner`, then a closing bracket.
pub open spec fn bracketed(prefix: Seq<char>, inner: Seq<char>) -> Seq<char> {
    prefix + inner + seq![')']
}

/// `prefix`, then `inner`, then a closing bracket.
pub(crate) fn bracket(prefix: &str, inner: &str) -> (text: String)
    ensures
        text@ == bracketed(prefix@, inner@),
{
    let mut text = prefix.to_owned();
    text.append(inner);
    text.append(")");
    proof {
        reveal_strlit(")");
    }
    text
}

impl LessonUploadError {
    /// The text of this error: the variant's path, with the message in
    /// brackets where there is one.
    pub open spec fn text(self) -> Seq<char> {
        match self {
            LessonUploadError::NoInfo => "LessonUploadError::NoInfo"@,
            LessonUploadError::NoDetailedInfo => "LessonUploadError::NoDetailedInfo"@,
            LessonUploadError::Network(e) => bracketed("LessonUploadError::Network("@, e@),
            LessonUploadError::WrongPassword => "LessonUploadError::WrongPassword"@,
            LessonUploadError::EncryptionFailed(e) => bracketed(
                "LessonUploadError::EncryptionFailed("@,
                e@,
            ),
            LessonUploadError::DeletionFailed => "LessonUploadError::DeletionFailed"@,
            LessonUploadError::Unknown => "LessonUploadError::Unknown"@,
            LessonUploadError::UnknownServerError => "LessonUploadError::UnknownServerError"@,
        }
    }

    /// Renders this error as text.
    pub fn to_text(&self) -> (text: String)
        ensures
            text@ == self.text(),
    {
        match self {
            LessonUploadError::NoInfo => "LessonUploadError::NoInfo".to_owned(),
            LessonUploadError::NoDetailedInfo => "LessonUploadError::NoDetailedInfo".to_owned(),
            LessonUploadError::Network(e) => bracket("LessonUploadError::Network(", e.as_str()),
            LessonUploadError::WrongPassword => "LessonUploadError::WrongPassword".to_owned(),
            LessonUploadError::EncryptionFailed(e) => bracket(
                "LessonUploadError::EncryptionFailed(",
                e.as_str(),
            ),
            LessonUploadError::DeletionFailed => "LessonUploadError::DeletionFailed".to_owned(),
            LessonUploadError::Unknown => "LessonUploadError::Unknown".to_owned(),
            LessonUploadError::UnknownServerError => "LessonUploadError::UnknownServerError".to_owned(),
        }
    }
}

impl Error {
    /// The text of this error: the variant's path, with the message in
    /// brackets where there is one.
    pub open spec fn text(self) -> Seq<char> {
        match self {
            Error::Network(e) => bracketed("Error::Network("@, e@),
            Error::Parsing(e) => bracketed("Error::Parsing("@, e@),
            Error::Crypto(e) => bracketed("Error::Crypto("@, e@),
            Error::Html(e) => bracketed("Error::Html("@, e@),
            Error::Credentials(e) => bracketed("Error::Credentials("@, e@),
            Error::UntisAPI(e) => bracketed("Error::UntisAPI("@, e@),
            Error::DateTime(e) => bracketed("Error::DateTime("@, e@),
            Error::Threading(e) => bracketed("Error::Threading("@, e@),
            Error::NoSchool(e) => bracketed("Error::NoSchool("@, e@),
            Error::KeyPair => "Error::KeyPair"@,
            Error::Login(e) => bracketed("Error::Login("@, e@),
            Error::SchoolNotFound(e) => bracketed("Error::SchoolNotFound("@, e@),
            Error::LessonUploadError(e) => bracketed("Error::LessonUploadError("@, e.text()),
            Error::ServerSide(e) => bracketed("Error::ServerSide("@, e@),
            Error::FileSystem(e) => bracketed("Error::FileSystem("@, e@),
        }
    }

    /// Renders this error as text.
    pub fn to_text(&self) -> (text: String)
        ensures
            text@ == self.text(),
    {
        match self {
            Error::Network(e) => bracket("Error::Network(", e.as_str()),
            Error::Parsing(e) => bracket("Error::Parsing(", e.as_str()),
            Error::Crypto(e) => bracket("Error::Crypto(", e.as_str()),
            Error::Html(e) => bracket("Error::Html(", e.as_str()),
            Error::Credentials(e) => bracket("Error::Credentials(", e.as_str()),
            Error::UntisAPI(e) => bracket("Error::UntisAPI(", e.as_str()),
            Error::DateTime(e) => bracket("Error::DateTime(", e.as_str()),
            Error::Threading(e) => bracket("Error::Threading(", e.as_str()),
            Error::NoSchool(e) => bracket("Error::NoSchool(", e.as_str()),
            Error::KeyPair => "Error::KeyPair".to_owned(),
            Error::Login(e) => bracket("Error::Login(", e.as_str()),
            Error::SchoolNotFound(e) => bracket("Error::SchoolNotFound(", e.as_str()),
            Error::LessonUploadError(e) => {
                let inner = e.to_text();
                bracket("Error::LessonUploadError(", inner.as_str())
            },
            Error::ServerSide(e) => bracket("Error::ServerSide(", e.as_str()),
            Error::FileSystem(e) => bracket("Error::FileSystem(", e.as_str()),
        }
    }
}

} // verus!
