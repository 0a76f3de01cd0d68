//! Campus network credentials, complete and partial.

use vstd::prelude::*;

verus! {

/// Campus network user credentials that are finalized.
#[derive(Debug)]
pub struct BitUser {
    pub username: String,
    pub password: String,
}

/// Partial campus network user credentials: each half may still be unknown.
#[derive(Debug)]
pub struct BitUserPartial {
    pub username: Option<String>,
    pub password: Option<String>,
}

/// The text that an optional string stands for: its own, or the empty text.
pub open spec fn text_or_empty(value: Option<String>) -> Seq<char> {
    match value {
        Some(s) => s@,
        None => Seq::empty(),
    }
}

/// The first of two optional values that is known.
pub open spec fn first_known(first: Option<String>, second: Option<String>) -> Option<String> {
    if first is Some {
        first
    } else {
        second
    }
}

/// The partial credentials that take each half from `preferred` where it is
/// known there, and else from `fallback`.
pub open spec fn merged(preferred: BitUserPartial, fallback: BitUserPartial) -> BitUserPartial {
    BitUserPartial {
        username: first_known(preferred.username, fallback.username),
        password: first_known(preferred.password, fallback.password),
    }
}

/// Merging in turn gives priority in turn: of three sources, each half comes
/// from the first that knows it, however the merges are grouped.
pub proof fn lemma_merge_priority(first: BitUserPartial, second: BitUserPartial, third: BitUserPartial)
    ensures
        merged(merged(first, second), third) == merged(first, merged(second, third)),
        merged(merged(first, second), third).username == first_known(
            first.username,
            first_known(second.username, third.username),
        ),
        merged(merged(first, second), third).password == first_known(
            first.password,
            first_known(second.password, third.password),
        ),
{
}

impl Default for BitUser {
    fn default() -> (user: Self)
        ensures
            user.username@ == Seq::<char>::empty(),
            user.password@ == Seq::<char>::empty(),
    {
        BitUser { username: String::new(), password: String::new() }
    }
}

impl Default for BitUserPartial {
    fn default() -> (partial: Self)
        ensures
            partial.username is None,
            partial.password is None,
    {
        BitUserPartial { username: None, password: None }
    }
}

impl BitUserPartial {
    pub fn new(username: Option<String>, password: Option<String>) -> (partial: Self)
        ensures
            partial.username == username,
            partial.password == password,
    {
        Self { username, password }
    }

    /// Whether both the username and the password are known.
    pub fn is_complete(&self) -> (complete: bool)
        ensures
            complete == (self.username is Some && self.password is Some),
    {
        self.username.is_some() && self.password.is_some()
    }

    /// Fills each half that is still unknown from `fallback`. A half that is
    /// already known is kept, so the receiver has priority over `fallback`.
    pub fn merged_with(self, fallback: BitUserPartial) -> (result: BitUserPartial)
        ensures
            result == merged(self, fallback),
    {
        let username = match self.username {
            Some(name) => Some(name),
            None => fallback.username,
        };
        let password = match self.password {
            Some(word) => Some(word),
            None => fallback.password,
        };
        BitUserPartial { username, password }
    }

    /// Finalizes the credentials. A half that is still unknown becomes the
    /// empty string.
    pub fn into_user(self) -> (user: BitUser)
        ensures
            user.username@ == text_or_empty(self.username),
            user.password@ == text_or_empty(self.password),
    {
        let username = match self.username {
            Some(name) => name,
            None => String::new(),
        };
        let password = match self.password {
            Some(word) => word,
            None => String::new(),
        };
        BitUser { username, password }
    }
}

} // verus!
