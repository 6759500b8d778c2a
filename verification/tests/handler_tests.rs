use user_service::handler::{decide, plan, respond, Action, Outcome};
use user_service::route::Route;
use user_service::response::{Response, Status, INTERNAL_ERROR, NOT_FOUND, OK_RESPONSE};
use user_service::sql::{
    statement, CREATE_TABLE, DELETE, INSERT, SELECT_ALL, SELECT_ONE, UPDATE,
};
use user_service::user::{DecodeError, User};

fn record(id: Option<i32>, name: &str, email: &str) -> User {
    User { id, name: name.to_string(), email: email.to_string() }
}

fn request(method: &str, path: &str, body: &str) -> String {
    format!("{} {} HTTP/1.1\r\nHost: localhost:8080\r\nContent-Type: application/json\r\n\r\n{}", method, path, body)
}

fn insert(name: &str, email: &str) -> Action {
    Action::Insert { name: name.to_string(), email: email.to_string() }
}

#[test]
fn create_read_delete_read_again() {
    let create = plan(&request("POST", "/api/users", "{\"name\":\"Ada\",\"email\":\"ada@x.com\"}"));
    assert_eq!(create, insert("Ada", "ada@x.com"));
    let created = respond(&create, &Outcome::Inserted(41));
    assert_eq!(created.status, Status::Success);
    assert_eq!(created.body, "{\"id\":41,\"name\":\"Ada\",\"email\":\"ada@x.com\"}");

    let read = plan(&request("GET", "/api/users/41", ""));
    assert_eq!(read, Action::SelectOne { id: 41 });
    let found = respond(&read, &Outcome::Row(Some(record(Some(41), "Ada", "ada@x.com"))));
    assert_eq!(found.status, Status::Success);
    assert_eq!(found.body, "{\"id\":41,\"name\":\"Ada\",\"email\":\"ada@x.com\"}");
    assert_eq!(
        found.to_text(),
        format!("{}{}", OK_RESPONSE, "{\"id\":41,\"name\":\"Ada\",\"email\":\"ada@x.com\"}")
    );

    let delete = plan(&request("DELETE", "/api/users/41", ""));
    assert_eq!(delete, Action::Delete { id: 41 });
    let deleted = respond(&delete, &Outcome::Changed(1));
    assert_eq!(deleted, Response::empty(Status::Success));

    let again = plan(&request("GET", "/api/users/41", ""));
    assert_eq!(again, Action::SelectOne { id: 41 });
    let gone = respond(&again, &Outcome::Row(None));
    assert_eq!(gone, Response::empty(Status::NotFound));
    assert_eq!(gone.to_text(), NOT_FOUND);
}

#[test]
fn malformed_body_on_create_is_refused() {
    for body in ["", "{", "{\"name\":\"Ada\",", "name=Ada&email=a", "{\"name\":\"Ada\"}", "[]"] {
        let action = plan(&request("POST", "/api/users", body));
        assert_eq!(action, Action::Reply(Response::empty(Status::InternalError)));
        assert_eq!(statement(&action), None);
        assert_eq!(respond(&action, &Outcome::Failed).to_text(), INTERNAL_ERROR);
    }
}

#[test]
fn unknown_path_is_not_found() {
    for method in ["GET", "POST", "PUT", "DELETE", "PATCH", "", "nope"] {
        let action = plan(&request(method, "/nope", "{\"name\":\"a\",\"email\":\"b\"}"));
        assert_eq!(action, Action::Reply(Response::empty(Status::NotFound)));
        assert_eq!(statement(&action), None);
        assert_eq!(respond(&action, &Outcome::Failed).to_text(), NOT_FOUND);
    }
    assert_eq!(plan(""), Action::Reply(Response::empty(Status::NotFound)));
    assert_eq!(plan("GET"), Action::Reply(Response::empty(Status::NotFound)));
    assert_eq!(plan("\r\n\r\n"), Action::Reply(Response::empty(Status::NotFound)));
}

#[test]
fn list_reads_all() {
    let action = plan(&request("GET", "/api/users", ""));
    assert_eq!(action, Action::SelectAll);
    let r = respond(&action, &Outcome::Rows(vec![]));
    assert_eq!(r, Response::ok("[]".to_string()));
    let r = respond(
        &action,
        &Outcome::Rows(vec![record(Some(1), "a", "b"), record(Some(2), "c", "d")]),
    );
    assert_eq!(r.status, Status::Success);
    assert_eq!(
        r.body,
        "[{\"id\":1,\"name\":\"a\",\"email\":\"b\"},{\"id\":2,\"name\":\"c\",\"email\":\"d\"}]"
    );
}

#[test]
fn list_shows_as_many_records_as_the_store_holds() {
    let action = plan(&request("GET", "/api/users", ""));
    let mut stored: Vec<User> = Vec::new();
    let mut next = 1;
    while next <= 5 {
        stored.push(record(Some(next), "n", "e"));
        next += 1;
    }
    stored.retain(|u| u.id != Some(2) && u.id != Some(4));
    let r = respond(&action, &Outcome::Rows(stored));
    let value: serde_json::Value = serde_json::from_str(&r.body).unwrap();
    assert_eq!(value.as_array().unwrap().len(), 3);
}

#[test]
fn update_takes_id_from_path_and_record_from_body() {
    let action = plan(&request(
        "PUT",
        "/api/users/9",
        "{\"id\":1000,\"name\":\"Grace\",\"email\":\"g@x.com\"}",
    ));
    assert_eq!(
        action,
        Action::Update { id: 9, name: "Grace".to_string(), email: "g@x.com".to_string() }
    );
    assert_eq!(respond(&action, &Outcome::Changed(1)), Response::empty(Status::Success));
    assert_eq!(respond(&action, &Outcome::Changed(0)), Response::empty(Status::NotFound));
}

#[test]
fn update_with_unreadable_parts_is_refused() {
    let refused = Action::Reply(Response::empty(Status::InternalError));
    assert_eq!(plan(&request("PUT", "/api/users/9", "{\"name\":\"Grace\"}")), refused);
    assert_eq!(plan(&request("PUT", "/api/users/9", "")), refused);
    assert_eq!(
        plan(&request("PUT", "/api/users/x", "{\"name\":\"a\",\"email\":\"b\"}")),
        refused
    );
}

#[test]
fn id_that_is_no_integer_is_refused() {
    let refused = Action::Reply(Response::empty(Status::InternalError));
    assert_eq!(plan(&request("GET", "/api/users/", "")), refused);
    assert_eq!(plan(&request("GET", "/api/users/abc", "")), refused);
    assert_eq!(plan(&request("GET", "/api/users/1.5", "")), refused);
    assert_eq!(plan(&request("GET", "/api/users/7/", "")), refused);
    assert_eq!(plan(&request("DELETE", "/api/users/99999999999", "")), refused);
    assert_eq!(plan(&request("GET", "/api/users/-7", "")), Action::SelectOne { id: -7 });
}

#[test]
fn delete_of_a_missing_record_is_not_found_each_time() {
    let action = plan(&request("DELETE", "/api/users/5", ""));
    assert_eq!(respond(&action, &Outcome::Changed(1)).status, Status::Success);
    assert_eq!(respond(&action, &Outcome::Changed(0)), Response::empty(Status::NotFound));
    assert_eq!(respond(&action, &Outcome::Changed(0)), Response::empty(Status::NotFound));
}

#[test]
fn failure_of_the_store_is_an_internal_error() {
    let actions = [
        insert("a", "b"),
        Action::SelectAll,
        Action::SelectOne { id: 1 },
        Action::Update { id: 1, name: "a".to_string(), email: "b".to_string() },
        Action::Delete { id: 1 },
    ];
    for action in actions {
        assert_eq!(
            respond(&action, &Outcome::Failed),
            Response::empty(Status::InternalError)
        );
    }
}

#[test]
fn an_outcome_of_another_action_is_an_internal_error() {
    let error = Response::empty(Status::InternalError);
    assert_eq!(respond(&insert("a", "b"), &Outcome::Changed(1)), error);
    assert_eq!(respond(&Action::SelectAll, &Outcome::Row(None)), error);
    assert_eq!(respond(&Action::SelectOne { id: 1 }, &Outcome::Rows(vec![])), error);
    assert_eq!(respond(&Action::Delete { id: 1 }, &Outcome::Inserted(1)), error);
    assert_eq!(
        respond(
            &Action::Update { id: 1, name: "a".to_string(), email: "b".to_string() },
            &Outcome::Row(None)
        ),
        error
    );
}

#[test]
fn a_reply_stands_whatever_the_store_says() {
    let reply = Action::Reply(Response::ok("[1]".to_string()));
    assert_eq!(respond(&reply, &Outcome::Failed), Response::ok("[1]".to_string()));
    assert_eq!(respond(&reply, &Outcome::Changed(0)), Response::ok("[1]".to_string()));
}

#[test]
fn a_created_record_can_be_read_under_its_id() {
    let create = plan(&request("POST", "/api/users", "{\"name\":\"Ada\",\"email\":\"ada@x.com\"}"));
    for id in [1, 41, 2147483647, -5] {
        let shown = respond(&create, &Outcome::Inserted(id));
        let value: serde_json::Value = serde_json::from_str(&shown.body).unwrap();
        let returned = value.get("id").unwrap().as_i64().unwrap();
        let read = plan(&request("GET", &format!("/api/users/{}", returned), ""));
        assert_eq!(read, Action::SelectOne { id });
    }
}

#[test]
fn statements_are_fixed_texts() {
    assert_eq!(statement(&insert("a", "b")), Some(INSERT));
    assert_eq!(statement(&insert("'); DROP TABLE users; --", "$1")), Some(INSERT));
    assert_eq!(statement(&Action::SelectAll), Some(SELECT_ALL));
    assert_eq!(statement(&Action::SelectOne { id: 3 }), Some(SELECT_ONE));
    assert_eq!(
        statement(&Action::Update { id: 3, name: "x".to_string(), email: "y".to_string() }),
        Some(UPDATE)
    );
    assert_eq!(statement(&Action::Delete { id: 3 }), Some(DELETE));
    assert_eq!(statement(&Action::Reply(Response::empty(Status::NotFound))), None);
    assert_eq!(INSERT, "INSERT INTO users (name, email) VALUES ($1, $2) RETURNING id");
    assert_eq!(SELECT_ALL, "SELECT id, name, email FROM users");
    assert_eq!(SELECT_ONE, "SELECT id, name, email FROM users WHERE id = $1");
    assert_eq!(UPDATE, "UPDATE users SET name = $1, email = $2 WHERE id = $3");
    assert_eq!(DELETE, "DELETE FROM users WHERE id = $1");
    assert!(CREATE_TABLE.starts_with("CREATE TABLE IF NOT EXISTS users ("));
}

#[test]
fn decides_by_route_and_record() {
    let ada = record(None, "Ada", "ada@x.com");
    let refused = Action::Reply(Response::empty(Status::InternalError));
    assert_eq!(decide(Route::Create, Ok(ada.clone())), insert("Ada", "ada@x.com"));
    assert_eq!(decide(Route::Create, Ok(record(Some(9), "Ada", "ada@x.com"))), insert("Ada", "ada@x.com"));
    assert_eq!(decide(Route::Create, Err(DecodeError::Syntax)), refused);
    assert_eq!(decide(Route::Create, Err(DecodeError::Name)), refused);
    assert_eq!(decide(Route::Create, Err(DecodeError::Email)), refused);
    assert_eq!(decide(Route::Create, Err(DecodeError::Id)), refused);
    assert_eq!(decide(Route::List, Err(DecodeError::Syntax)), Action::SelectAll);
    assert_eq!(decide(Route::List, Ok(ada.clone())), Action::SelectAll);
    assert_eq!(decide(Route::Read("12"), Err(DecodeError::Syntax)), Action::SelectOne { id: 12 });
    assert_eq!(decide(Route::Read("x"), Ok(ada.clone())), refused);
    assert_eq!(
        decide(Route::Update("12"), Ok(ada.clone())),
        Action::Update { id: 12, name: "Ada".to_string(), email: "ada@x.com".to_string() }
    );
    assert_eq!(decide(Route::Update("12"), Err(DecodeError::Email)), refused);
    assert_eq!(decide(Route::Update(""), Ok(ada.clone())), refused);
    assert_eq!(decide(Route::Delete("12"), Err(DecodeError::Syntax)), Action::Delete { id: 12 });
    assert_eq!(decide(Route::Delete("1 2"), Err(DecodeError::Syntax)), refused);
    assert_eq!(
        decide(Route::Unknown, Ok(ada)),
        Action::Reply(Response::empty(Status::NotFound))
    );
}
