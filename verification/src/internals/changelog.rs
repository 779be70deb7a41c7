//! Change logs: a record of each change to a translated value, with what it was before
//! (so that a change can be rolled back).

use vstd::prelude::*;

use crate::internals::clock::{is_rfc3339_utc, now_rfc3339};

verus! {

/// What a change did to a value.
#[derive(Debug, Clone, Copy, PartialEq, Eq, Structural)]
pub enum ChangeState {
    Created,
    Updated,
    Deleted,
}

/// The text of a change state.
pub open spec fn change_state_text(state: ChangeState) -> Seq<char> {
    match state {
        ChangeState::Created => "created"@,
        ChangeState::Updated => "updated"@,
        ChangeState::Deleted => "deleted"@,
    }
}

/// Different change states are written as different texts.
pub proof fn law_change_state_texts_distinct(s1: ChangeState, s2: ChangeState)
    ensures
        s1 != s2 ==> change_state_text(s1) != change_state_text(s2),
{
    reveal_strlit("created");
    reveal_strlit("updated");
    reveal_strlit("deleted");
    assert(change_state_text(s1)[0] != change_state_text(s2)[0] || s1 == s2);
}

impl ChangeState {
    /// The state as text: `created`, `updated` or `deleted`.
    pub fn to_string(&self) -> (text: String)
        ensures
            text@ == change_state_text(*self),
    {
        match self {
            ChangeState::Created => String::from_str("created"),
            ChangeState::Updated => String::from_str("updated"),
            ChangeState::Deleted => String::from_str("deleted"),
        }
    }
}

/// A change to the value under (`locale`, `key`).
pub struct Changelog {
    pub locale: String,
    pub key: String,
    /// The value before the change, for a rollback.
    pub origin: String,
    pub message: Option<String>,
    pub state: ChangeState,
    /// When the change was made (RFC 3339).
    pub created_at: String,
}

impl Changelog {
    /// A change made at `created_at`, with the given fields.
    pub fn at(
        locale: String,
        key: String,
        origin: String,
        state: ChangeState,
        message: Option<String>,
        created_at: String,
    ) -> (change: Changelog)
        ensures
            change == (Changelog { locale, key, origin, message, state, created_at }),
    {
        Changelog { locale, key, origin, message, state, created_at }
    }

    /// A change made now, with a message.
    pub fn new_with_message(
        locale: String,
        key: String,
        origin: String,
        state: ChangeState,
        message: String,
    ) -> (change: Changelog)
        ensures
            change.locale == locale,
            change.key == key,
            change.origin == origin,
            change.state == state,
            change.message == Some(message),
            is_rfc3339_utc(change.created_at@),
    {
        Changelog::at(locale, key, origin, state, Some(message), now_rfc3339())
    }

    /// A change made now, without a message.
    pub fn new(locale: String, key: String, origin: String, state: ChangeState) -> (change: Changelog)
        ensures
            change.locale == locale,
            change.key == key,
            change.origin == origin,
            change.state == state,
            change.message is None,
            is_rfc3339_utc(change.created_at@),
    {
        Changelog::at(locale, key, origin, state, None, now_rfc3339())
    }
}

} // verus!
