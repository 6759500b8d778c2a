//! The decisions of a request's handling: what to ask of the store, and
//! what to answer once the store has spoken.

use crate::json::json_parse;
use crate::number::{decimal, lemma_decimal_reads_back, numeral_i32, parse_i32};
use crate::request::{body_of, method_of, parse_request, path_of};
use crate::response::{bare, Response, ResponseView, Status};
use crate::route::{route, route_of, user_prefix, users_path, Route, RouteView};
use crate::user::{
    decode_user, decoded_view, encode_user, encode_users, user_of_text, user_text, users_text,
    views_of, DecodeError, User, UserView,
};
use vstd::prelude::*;

verus! {

/// What a request leads to: one statement for the store, or an answer
/// that needs no store.
#[derive(Debug, Clone, PartialEq, Eq)]
pub enum Action {
    Insert { name: String, email: String },
    SelectAll,
    SelectOne { id: i32 },
    Update { id: i32, name: String, email: String },
    Delete { id: i32 },
    Reply(Response),
}

/// An action as plain values.
pub ghost enum ActionView {
    Insert { name: Seq<char>, email: Seq<char> },
    SelectAll,
    SelectOne { id: i32 },
    Update { id: i32, name: Seq<char>, email: Seq<char> },
    Delete { id: i32 },
    Reply(ResponseView),
}

impl View for Action {
    type V = ActionView;

    open spec fn view(&self) -> ActionView {
        match *self {
            Action::Insert { name, email } => ActionView::Insert { name: name@, email: email@ },
            Action::SelectAll => ActionView::SelectAll,
            Action::SelectOne { id } => ActionView::SelectOne { id },
            Action::Update { id, name, email } => ActionView::Update {
                id,
                name: name@,
                email: email@,
            },
            Action::Delete { id } => ActionView::Delete { id },
            Action::Reply(response) => ActionView::Reply(response@),
        }
    }
}

/// What the store said of a statement.
#[derive(Debug, Clone, PartialEq, Eq)]
pub enum Outcome {
    /// The id that the store gave the new record.
    Inserted(i32),
    /// The record of the id asked for, or that there is none.
    Row(Option<User>),
    /// All records.
    Rows(Vec<User>),
    /// How many records the statement changed or removed.
    Changed(u64),
    /// The store could not be reached or refused the statement.
    Failed,
}

/// An outcome as plain values.
pub ghost enum OutcomeView {
    Inserted(i32),
    Row(Option<UserView>),
    Rows(Seq<UserView>),
    Changed(u64),
    Failed,
}

impl View for Outcome {
    type V = OutcomeView;

    open spec fn view(&self) -> OutcomeView {
        match *self {
            Outcome::Inserted(id) => OutcomeView::Inserted(id),
            Outcome::Row(Some(user)) => OutcomeView::Row(Some(user@)),
            Outcome::Row(None) => OutcomeView::Row(None),
            Outcome::Rows(users) => OutcomeView::Rows(views_of(users@)),
            Outcome::Changed(n) => OutcomeView::Changed(n),
            Outcome::Failed => OutcomeView::Failed,
        }
    }
}

/// The action that a route leads to, given what the body was read as.
///
/// A path without a route is answered with 404. An id token that is no
/// 32-bit integer, and a body that is no user record where the route
/// needs one, are answered with 500. Only the name and the email of the
/// body's record are used: the id comes from the path.
pub open spec fn decided(route: RouteView, record: Result<UserView, DecodeError>) -> ActionView {
    match route {
        RouteView::Create => match record {
            Ok(user) => ActionView::Insert { name: user.name, email: user.email },
            Err(_) => ActionView::Reply(bare(Status::InternalError)),
        },
        RouteView::List => ActionView::SelectAll,
        RouteView::Read(token) => match numeral_i32(token) {
            Some(id) => ActionView::SelectOne { id },
            None => ActionView::Reply(bare(Status::InternalError)),
        },
        RouteView::Update(token) => match (numeral_i32(token), record) {
            (Some(id), Ok(user)) => ActionView::Update { id, name: user.name, email: user.email },
            _ => ActionView::Reply(bare(Status::InternalError)),
        },
        RouteView::Delete(token) => match numeral_i32(token) {
            Some(id) => ActionView::Delete { id },
            None => ActionView::Reply(bare(Status::InternalError)),
        },
        RouteView::Unknown => ActionView::Reply(bare(Status::NotFound)),
    }
}

/// The action that a request text leads to.
pub open spec fn planned(request: Seq<char>) -> ActionView {
    decided(route_of(method_of(request), path_of(request)), user_of_text(body_of(request)))
}

/// A successful response with `body`.
pub open spec fn success(body: Seq<char>) -> ResponseView {
    ResponseView { status: Status::Success, body }
}

/// The answer to a request, given the action it led to and what the
/// store said.
///
/// A new record is answered with its JSON text, id included. A statement
/// that changed or removed no record is answered with 404, as is a read
/// that found none. A failure of the store, and an outcome that is not one
/// of the action, are answered with 500.
pub open spec fn response_for(action: ActionView, outcome: OutcomeView) -> ResponseView {
    match (action, outcome) {
        (ActionView::Reply(response), _) => response,
        (ActionView::Insert { name, email }, OutcomeView::Inserted(id)) => success(
            user_text(UserView { id: Some(id), name, email }),
        ),
        (ActionView::SelectAll, OutcomeView::Rows(users)) => success(users_text(users)),
        (ActionView::SelectOne { .. }, OutcomeView::Row(Some(user))) => success(user_text(user)),
        (ActionView::SelectOne { .. }, OutcomeView::Row(None)) => bare(Status::NotFound),
        (ActionView::Update { .. }, OutcomeView::Changed(n)) => if n == 0 {
            bare(Status::NotFound)
        } else {
            bare(Status::Success)
        },
        (ActionView::Delete { .. }, OutcomeView::Changed(n)) => if n == 0 {
            bare(Status::NotFound)
        } else {
            bare(Status::Success)
        },
        _ => bare(Status::InternalError),
    }
}

/// Decides what a route leads to, given what the body was read as.
pub fn decide(route: Route<'_>, record: Result<User, DecodeError>) -> (action: Action)
    ensures
        action@ == decided(route@, decoded_view(record)),
{
    match route {
        Route::Create => match record {
            Ok(user) => Action::Insert { name: user.name, email: user.email },
            Err(_) => Action::Reply(Response::empty(Status::InternalError)),
        },
        Route::List => Action::SelectAll,
        Route::Read(token) => match parse_i32(token) {
            Some(id) => Action::SelectOne { id },
            None => Action::Reply(Response::empty(Status::InternalError)),
        },
        Route::Update(token) => match parse_i32(token) {
            Some(id) => match record {
                Ok(user) => Action::Update { id, name: user.name, email: user.email },
                Err(_) => Action::Reply(Response::empty(Status::InternalError)),
            },
            None => Action::Reply(Response::empty(Status::InternalError)),
        },
        Route::Delete(token) => match parse_i32(token) {
            Some(id) => Action::Delete { id },
            None => Action::Reply(Response::empty(Status::InternalError)),
        },
        Route::Unknown => Action::Reply(Response::empty(Status::NotFound)),
    }
}

/// Decides what a request leads to.
pub fn plan(request: &str) -> (action: Action)
    ensures
        action@ == planned(request@),
{
    let parts = parse_request(request);
    decide(route(parts.method, parts.path), decode_user(parts.body))
}

fn changed(n: u64) -> (r: Response)
    ensures
        r@ == (if n == 0 {
            bare(Status::NotFound)
        } else {
            bare(Status::Success)
        }),
{
    if n == 0 {
        Response::empty(Status::NotFound)
    } else {
        Response::empty(Status::Success)
    }
}

/// Answers a request, given the action it led to and what the store said.
pub fn respond(action: &Action, outcome: &Outcome) -> (response: Response)
    ensures
        response@ == response_for(action@, outcome@),
{
    match action {
        Action::Reply(response) => Response {
            status: response.status,
            body: response.body.clone(),
        },
        Action::Insert { name, email } => match outcome {
            Outcome::Inserted(id) => {
                let user = User { id: Some(*id), name: name.clone(), email: email.clone() };
                Response::ok(encode_user(&user))
            },
            _ => Response::empty(Status::InternalError),
        },
        Action::SelectAll => match outcome {
            Outcome::Rows(users) => Response::ok(encode_users(users)),
            _ => Response::empty(Status::InternalError),
        },
        Action::SelectOne { .. } => match outcome {
            Outcome::Row(Some(user)) => Response::ok(encode_user(user)),
            Outcome::Row(None) => Response::empty(Status::NotFound),
            _ => Response::empty(Status::InternalError),
        },
        Action::Update { .. } => match outcome {
            Outcome::Changed(n) => changed(*n),
            _ => Response::empty(Status::InternalError),
        },
        Action::Delete { .. } => match outcome {
            Outcome::Changed(n) => changed(*n),
            _ => Response::empty(Status::InternalError),
        },
    }
}

/// A request whose path is neither that of the collection nor under it
/// is answered with 404 and leads to no statement, whatever its method
/// and body.
pub proof fn lemma_foreign_path_is_not_found(request: Seq<char>)
    requires
        path_of(request) != users_path(),
        !user_prefix().is_prefix_of(path_of(request)),
    ensures
        planned(request) == ActionView::Reply(bare(Status::NotFound)),
{
}

/// A request to create a record whose body is no user record, malformed
/// JSON included, is answered with 500 and leads to no statement.
pub proof fn lemma_unreadable_record_is_refused(request: Seq<char>)
    requires
        route_of(method_of(request), path_of(request)) == RouteView::Create,
        user_of_text(body_of(request)) is Err,
    ensures
        planned(request) == ActionView::Reply(bare(Status::InternalError)),
        json_parse(body_of(request)) is None ==> user_of_text(body_of(request)) == Err::<
            UserView,
            DecodeError,
        >(DecodeError::Syntax),
{
}

/// A request to create a record whose body is a user record leads to the
/// insertion of its name and email, and the answer shows the new record
/// under the id that the store gave it.
pub proof fn lemma_created_record_is_shown(request: Seq<char>, id: i32)
    requires
        route_of(method_of(request), path_of(request)) == RouteView::Create,
        user_of_text(body_of(request)) is Ok,
    ensures
        ({
            let user = user_of_text(body_of(request))->Ok_0;
            &&& planned(request) == ActionView::Insert { name: user.name, email: user.email }
            &&& response_for(planned(request), OutcomeView::Inserted(id)) == success(
                user_text(UserView { id: Some(id), name: user.name, email: user.email }),
            )
        }),
{
}

/// Reading and removing a record that the store does not hold is answered
/// with 404; so is removing one a second time.
pub proof fn lemma_missing_record_is_not_found(id: i32)
    ensures
        response_for(ActionView::SelectOne { id }, OutcomeView::Row(None)) == bare(
            Status::NotFound,
        ),
        response_for(ActionView::Delete { id }, OutcomeView::Changed(0)) == bare(
            Status::NotFound,
        ),
{
}

/// The path made of the prefix and the decimal numeral of an id addresses
/// the record of that id.
pub proof fn lemma_record_path_addresses_record(id: i32)
    ensures
        route_of("GET"@, user_prefix() + decimal(id as int)) == RouteView::Read(
            decimal(id as int),
        ),
        numeral_i32(decimal(id as int)) == Some(id),
{
    let path = user_prefix() + decimal(id as int);
    lemma_decimal_reads_back(id);
    reveal_strlit("/api/users");
    reveal_strlit("/api/users/");
    assert(path.subrange(0, user_prefix().len() as int) =~= user_prefix());
    assert(path.skip(user_prefix().len() as int) =~= decimal(id as int));
    assert(path != users_path()) by {
        assert(path.len() >= 11);
    }
}

} // verus!
