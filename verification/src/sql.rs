//! The statements that the service sends to its store.
//!
//! Each is a fixed text. What a request carries travels beside the
//! statement, as the values of its numbered parameters, never inside it.

use crate::handler::{Action, ActionView};
use vstd::prelude::*;

verus! {

/// Makes the table of users where there is none yet.
pub const CREATE_TABLE: &'static str =
    "CREATE TABLE IF NOT EXISTS users (id SERIAL PRIMARY KEY, name VARCHAR NOT NULL, email VARCHAR NOT NULL)";

/// Stores a record and returns its id. Parameters: name, email.
pub const INSERT: &'static str = "INSERT INTO users (name, email) VALUES ($1, $2) RETURNING id";

/// All records.
pub const SELECT_ALL: &'static str = "SELECT id, name, email FROM users";

/// The record of an id. Parameter: id.
pub const SELECT_ONE: &'static str = "SELECT id, name, email FROM users WHERE id = $1";

/// Gives the record of an id a new name and email. Parameters: name,
/// email, id.
pub const UPDATE: &'static str = "UPDATE users SET name = $1, email = $2 WHERE id = $3";

/// Removes the record of an id. Parameter: id.
pub const DELETE: &'static str = "DELETE FROM users WHERE id = $1";

/// The statement of an action, `None` for an answer that needs no store.
pub open spec fn statement_of(action: ActionView) -> Option<Seq<char>> {
    match action {
        ActionView::Insert { .. } => Some(INSERT@),
        ActionView::SelectAll => Some(SELECT_ALL@),
        ActionView::SelectOne { .. } => Some(SELECT_ONE@),
        ActionView::Update { .. } => Some(UPDATE@),
        ActionView::Delete { .. } => Some(DELETE@),
        ActionView::Reply(_) => None,
    }
}

/// The statement of `action`.
pub fn statement(action: &Action) -> (r: Option<&'static str>)
    ensures
        match r {
            Some(text) => statement_of(action@) == Some(text@),
            None => statement_of(action@) is None,
        },
{
    match action {
        Action::Insert { .. } => Some(INSERT),
        Action::SelectAll => Some(SELECT_ALL),
        Action::SelectOne { .. } => Some(SELECT_ONE),
        Action::Update { .. } => Some(UPDATE),
        Action::Delete { .. } => Some(DELETE),
        Action::Reply(_) => None,
    }
}

} // verus!
