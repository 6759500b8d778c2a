use user_service::response::{Response, Status, INTERNAL_ERROR, NOT_FOUND, OK_RESPONSE};

#[test]
fn heads_are_fixed() {
    assert_eq!(
        OK_RESPONSE,
        "HTTP/1.1 200 OK\r\nContent-Type: application/json\r\nAccess-Control-Allow-Origin: *\r\nAccess-Control-Allow-Methods: GET, POST, PUT, DELETE\r\nAccess-Control-Allow-Headers: Content-Type\r\n\r\n"
    );
    assert_eq!(NOT_FOUND, "HTTP/1.1 404 NOT Found\r\n\r\n");
    assert_eq!(INTERNAL_ERROR, "HTTP/1.1 500 INTERNAL ERROR\r\n\r\n");
    assert_eq!(Status::Success.head(), OK_RESPONSE);
    assert_eq!(Status::NotFound.head(), NOT_FOUND);
    assert_eq!(Status::InternalError.head(), INTERNAL_ERROR);
}

#[test]
fn codes_of_the_statuses() {
    assert_eq!(Status::Success.code(), 200);
    assert_eq!(Status::NotFound.code(), 404);
    assert_eq!(Status::InternalError.code(), 500);
}

#[test]
fn success_allows_any_origin() {
    assert!(OK_RESPONSE.contains("Access-Control-Allow-Origin: *\r\n"));
    assert!(OK_RESPONSE.contains("Access-Control-Allow-Methods: GET, POST, PUT, DELETE\r\n"));
    assert!(OK_RESPONSE.contains("Access-Control-Allow-Headers: Content-Type\r\n"));
    assert!(OK_RESPONSE.ends_with("\r\n\r\n"));
}

#[test]
fn text_is_head_then_body() {
    let r = Response::ok("[]".to_string());
    assert_eq!(r.status, Status::Success);
    assert_eq!(r.to_text(), format!("{}{}", OK_RESPONSE, "[]"));
    let r = Response::empty(Status::NotFound);
    assert_eq!(r.body, "");
    assert_eq!(r.to_text(), "HTTP/1.1 404 NOT Found\r\n\r\n");
    let r = Response::empty(Status::InternalError);
    assert_eq!(r.to_text(), "HTTP/1.1 500 INTERNAL ERROR\r\n\r\n");
    let r = Response::empty(Status::Success);
    assert_eq!(r.to_text(), OK_RESPONSE);
}
