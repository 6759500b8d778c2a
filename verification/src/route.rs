//! Routing: from method and path to an operation.

use crate::text::{same_text, without_prefix};
use vstd::prelude::*;

verus! {

/// The operation that a request asks for. The operations on one record
/// carry the id token of the path as it stands there, unread.
#[derive(Debug, Clone, Copy, PartialEq, Eq)]
pub enum Route<'a> {
    Create,
    List,
    Read(&'a str),
    Update(&'a str),
    Delete(&'a str),
    Unknown,
}

/// A route as plain values.
pub ghost enum RouteView {
    Create,
    List,
    Read(Seq<char>),
    Update(Seq<char>),
    Delete(Seq<char>),
    Unknown,
}

impl View for Route<'_> {
    type V = RouteView;

    open spec fn view(&self) -> RouteView {
        match *self {
            Route::Create => RouteView::Create,
            Route::List => RouteView::List,
            Route::Read(id) => RouteView::Read(id@),
            Route::Update(id) => RouteView::Update(id@),
            Route::Delete(id) => RouteView::Delete(id@),
            Route::Unknown => RouteView::Unknown,
        }
    }
}

/// The path of the collection.
pub open spec fn users_path() -> Seq<char> {
    "/api/users"@
}

/// What the path of one record begins with; the id token follows.
pub open spec fn user_prefix() -> Seq<char> {
    "/api/users/"@
}

/// The route of a method and a path. Both are compared as they stand:
/// letter case and a trailing `/` make a difference.
pub open spec fn route_of(method: Seq<char>, path: Seq<char>) -> RouteView {
    if path == users_path() {
        if method == "POST"@ {
            RouteView::Create
        } else if method == "GET"@ {
            RouteView::List
        } else {
            RouteView::Unknown
        }
    } else if user_prefix().is_prefix_of(path) {
        let id = path.skip(user_prefix().len() as int);
        if method == "GET"@ {
            RouteView::Read(id)
        } else if method == "PUT"@ {
            RouteView::Update(id)
        } else if method == "DELETE"@ {
            RouteView::Delete(id)
        } else {
            RouteView::Unknown
        }
    } else {
        RouteView::Unknown
    }
}

/// Finds the route of `method` and `path`.
pub fn route<'a>(method: &str, path: &'a str) -> (r: Route<'a>)
    ensures
        r@ == route_of(method@, path@),
{
    if same_text(path, "/api/users") {
        if same_text(method, "POST") {
            Route::Create
        } else if same_text(method, "GET") {
            Route::List
        } else {
            Route::Unknown
        }
    } else {
        match without_prefix(path, "/api/users/") {
            Some(id) => {
                if same_text(method, "GET") {
                    Route::Read(id)
                } else if same_text(method, "PUT") {
                    Route::Update(id)
                } else if same_text(method, "DELETE") {
                    Route::Delete(id)
                } else {
                    Route::Unknown
                }
            },
            None => Route::Unknown,
        }
    }
}

} // verus!
