use http_server::response::Response;
use http_server::status_code::StatusCode;

#[test]
fn serialize_ok_with_body() {
    let resp = Response::new(StatusCode::OK, Some("hi".to_string()));
    assert_eq!(resp.serialize(), "HTTP/1.1 200 OK\r\n\r\nhi");
}

#[test]
fn serialize_ok_without_body() {
    let resp = Response::new(StatusCode::OK, None);
    assert_eq!(resp.serialize(), "HTTP/1.1 200 OK\r\n\r\n");
}

#[test]
fn serialize_not_found() {
    let resp = Response::new(StatusCode::NotFound, None);
    assert_eq!(resp.serialize(), "HTTP/1.1 404 Not Found\r\n\r\n");
}

#[test]
fn serialize_body_on_error_status() {
    let resp = Response::new(StatusCode::BadRequest, Some("nope".to_string()));
    assert_eq!(resp.serialize(), "HTTP/1.1 400 Bad Request\r\n\r\nnope");
}

#[test]
fn send_appends_to_sink() {
    let resp = Response::new(StatusCode::Created, Some("made".to_string()));
    let mut sink = String::from("previous|");
    resp.send(&mut sink);
    assert_eq!(sink, "previous|HTTP/1.1 201 Created\r\n\r\nmade");
}

#[test]
fn status_codes_and_reasons() {
    let cases = [
        (StatusCode::OK, 200u16, "OK", "200"),
        (StatusCode::Created, 201, "Created", "201"),
        (StatusCode::BadRequest, 400, "Bad Request", "400"),
        (StatusCode::Unauthorized, 401, "Unauthorized", "401"),
        (StatusCode::NotFound, 404, "Not Found", "404"),
        (StatusCode::MethodNotAllowed, 405, "Method Not Allowed", "405"),
        (StatusCode::InternalServerError, 500, "Internal Server Error", "500"),
    ];
    for (status, number, reason, text) in cases {
        assert_eq!(status.code(), number);
        assert_eq!(status.reason_phrase(), reason);
        assert_eq!(status.code_text(), text);
    }
}
