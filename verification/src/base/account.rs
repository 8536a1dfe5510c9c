//! Accounts: who is logged in, and the secrets for logging in again.

use vstd::prelude::*;

verus! {

/// The kind of an account.
#[derive(Clone, Copy, Eq, PartialEq, Ord, PartialOrd, Hash, Debug)]
pub enum AccountType {
    Student,
    Teacher,
    Parent,
    Unknown,
}

impl AccountType {
    /// The name of this kind.
    pub open spec fn text(self) -> Seq<char> {
        match self {
            AccountType::Student => "Student"@,
            AccountType::Teacher => "Teacher"@,
            AccountType::Parent => "Parent"@,
            AccountType::Unknown => "Unknown"@,
        }
    }

    /// Renders this kind as text.
    pub fn to_text(&self) -> (text: String)
        ensures
            text@ == self.text(),
    {
        match self {
            AccountType::Student => "Student".to_owned(),
            AccountType::Teacher => "Teacher".to_owned(),
            AccountType::Parent => "Parent".to_owned(),
            AccountType::Unknown => "Unknown".to_owned(),
        }
    }
}

/// Student specific infos. Any field may be empty.
#[derive(Clone, Eq, PartialEq, Ord, PartialOrd, Hash, Debug)]
pub struct AccountInfoStudent {
    pub grade: String,
    pub class: String,
}

/// Teacher specific infos. Any field may be empty.
#[derive(Clone, Eq, PartialEq, Ord, PartialOrd, Hash, Debug)]
pub struct AccountInfoTeacher {
    pub personal_number: String,
    /// The classes this teacher leads
    pub classes: Vec<String>,
    /// The classes this teacher leads as a substitute
    pub classes_sub: Vec<String>,
}

#[derive(Clone, Copy, Eq, PartialEq, Ord, PartialOrd, Hash, Debug)]
pub enum Gender {
    Male,
    Female,
    Diverse,
    Unknown,
}

/// The account secrets for the portal and maybe Untis, kept for logging in
/// again.
#[derive(Clone, Eq, PartialEq, Ord, PartialOrd, Hash, Debug)]
pub struct AccountSecrets {
    pub school_id: i32,
    pub username: String,
    pub password: String,
    pub untis_secrets: Option<UntisSecrets>,
}

impl AccountSecrets {
    /// Secrets for the portal alone, without Untis.
    pub fn new(school_id: i32, username: String, password: String) -> (secrets: AccountSecrets)
        ensures
            secrets.school_id == school_id,
            secrets.username == username,
            secrets.password == password,
            secrets.untis_secrets is None,
    {
        Self { school_id, username, password, untis_secrets: None }
    }
}

/// The account secrets for Untis, kept for logging in again.
#[derive(Clone, Eq, PartialEq, Ord, PartialOrd, Hash, Debug)]
pub struct UntisSecrets {
    /// The internal school name from Untis and not the display name
    pub school_name: String,
    pub username: String,
    pub password: String,
}

impl UntisSecrets {
    pub fn new(school_name: String, username: String, password: String) -> (secrets: UntisSecrets)
        ensures
            secrets.school_name == school_name,
            secrets.username == username,
            secrets.password == password,
    {
        Self { school_name, username, password }
    }
}

} // verus!
