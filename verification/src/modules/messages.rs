//! Messages: who takes part in a conversation, and of what kind it is.

use crate::base::account::AccountType;
use vstd::prelude::*;

verus! {

#[derive(Clone, Eq, PartialEq, Ord, PartialOrd, Hash, Debug)]
pub struct Participant {
    pub id: Option<i32>,
    /// The name of the participant
    pub name: String,
    /// May be unknown if the participant never wrote something in the chat
    pub account_type: AccountType,
}

#[derive(Clone, Copy, Eq, PartialEq, Ord, PartialOrd, Hash, Debug)]
pub enum ConversationType {
    /// No answers
    NoAnswersAllowed,
    /// Answers only to sender
    PrivateAnswersOnly,
    /// Answers to everyone
    GroupOnly,
    /// Private messages among themselves possible
    OpenChat,
}

impl ConversationType {
    /// The word that the portal expects for this kind.
    pub open spec fn lanis_string(self) -> Seq<char> {
        match self {
            ConversationType::NoAnswersAllowed => "noAnswerAllowed"@,
            ConversationType::PrivateAnswersOnly => "privateAnswerOnly"@,
            ConversationType::GroupOnly => "groupOnly"@,
            ConversationType::OpenChat => "openChat"@,
        }
    }

    /// The name of this kind.
    pub open spec fn text(self) -> Seq<char> {
        match self {
            ConversationType::NoAnswersAllowed => "NoAnswersAllowed"@,
            ConversationType::PrivateAnswersOnly => "PrivateAnswersOnly"@,
            ConversationType::GroupOnly => "GroupOnly"@,
            ConversationType::OpenChat => "OpenChat"@,
        }
    }

    /// Converts the kind to the word that the portal expects.
    pub fn to_lanis_string(&self) -> (word: String)
        ensures
            word@ == self.lanis_string(),
    {
        match self {
            ConversationType::NoAnswersAllowed => "noAnswerAllowed".to_owned(),
            ConversationType::PrivateAnswersOnly => "privateAnswerOnly".to_owned(),
            ConversationType::GroupOnly => "groupOnly".to_owned(),
            ConversationType::OpenChat => "openChat".to_owned(),
        }
    }

    /// Renders this kind as text.
    pub fn to_text(&self) -> (text: String)
        ensures
            text@ == self.text(),
    {
        match self {
            ConversationType::NoAnswersAllowed => "NoAnswersAllowed".to_owned(),
            ConversationType::PrivateAnswersOnly => "PrivateAnswersOnly".to_owned(),
            ConversationType::GroupOnly => "GroupOnly".to_owned(),
            ConversationType::OpenChat => "OpenChat".to_owned(),
        }
    }
}

#[derive(Clone, Eq, PartialEq, Ord, PartialOrd, Hash, Debug)]
pub struct Receiver {
    pub id: String,
    pub name: String,
    pub account_type: AccountType,
}

} // verus!
