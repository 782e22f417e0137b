//! The records that the service exchanges with its clients and its store.

use vstd::prelude::*;

verus! {

#[derive(Debug, Clone, Copy, PartialEq, Eq, Hash)]
pub struct QuestionId(pub i32);

#[derive(Debug, Clone, PartialEq, Eq)]
pub struct Question {
    pub id: QuestionId,
    pub title: String,
    pub content: String,
    pub tags: Option<Vec<String>>,
}

impl Question {
    pub fn new(id: QuestionId, title: String, content: String, tags: Option<Vec<String>>) -> (r:
        Question)
        ensures
            r.id == id,
            r.title@ == title@,
            r.content@ == content@,
            r.tags == tags,
    {
        Question { id, title, content, tags }
    }
}

/// A question as a client submits it, before the store gives it an id.
#[derive(Debug, Clone, PartialEq, Eq)]
pub struct NewQuestion {
    pub title: String,
    pub content: String,
    pub tags: Option<Vec<String>>,
}

#[derive(Debug, Clone, Copy, PartialEq, Eq, Hash)]
pub struct AnswerId(pub i32);

#[derive(Debug, Clone, PartialEq, Eq)]
pub struct Answer {
    pub id: AnswerId,
    pub content: String,
    pub question_id: QuestionId,
}

/// An answer as a client submits it, before the store gives it an id.
#[derive(Debug, Clone, PartialEq, Eq)]
pub struct NewAnswer {
    pub content: String,
    pub question_id: QuestionId,
}

/// The message of a failed call to the profanity filter.
#[derive(Debug, Clone, PartialEq, Eq)]
pub struct APIResponse(pub String);

#[derive(Debug, Clone, Copy, PartialEq, Eq, Hash)]
pub struct AccountId(pub i32);

/// An account; `password` holds the encoded password hash once the account
/// is stored, and the plaintext only while a registration or login is handled.
#[derive(Debug, Clone, PartialEq, Eq)]
pub struct Account {
    pub id: Option<AccountId>,
    pub email: String,
    pub password: String,
}

/// The identity and validity window carried by a token. Times are seconds
/// since the Unix epoch; the window is `nbf <= now < exp`.
#[derive(Debug, Clone, Copy, PartialEq, Eq)]
pub struct Session {
    pub exp: i64,
    pub account_id: AccountId,
    pub nbf: i64,
}

} // verus!
