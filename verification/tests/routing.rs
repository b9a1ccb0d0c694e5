use http_server::method::Method;
use http_server::website_handler::{Route, WebsiteHandler};

#[test]
fn root_maps_to_index_page() {
    let handler = WebsiteHandler::new("/srv/public".to_string());
    match handler.route(&Method::GET, "/") {
        Route::Fixed(f) => assert_eq!(f, "index.html"),
        _ => panic!("the root path maps to the index page"),
    }
}

#[test]
fn hello_maps_to_hello_page() {
    let handler = WebsiteHandler::new("/srv/public".to_string());
    match handler.route(&Method::GET, "/hello") {
        Route::Fixed(f) => assert_eq!(f, "hello.html"),
        _ => panic!("/hello maps to the hello page"),
    }
}

#[test]
fn other_paths_name_their_own_file() {
    let handler = WebsiteHandler::new("/srv/public".to_string());
    match handler.route(&Method::GET, "/style.css") {
        Route::Lookup(p) => assert_eq!(p, "/style.css"),
        _ => panic!("other paths are looked up verbatim"),
    }
}

#[test]
fn non_get_is_rejected() {
    let handler = WebsiteHandler::new("/srv/public".to_string());
    assert!(matches!(handler.route(&Method::POST, "/"), Route::Reject));
    assert!(matches!(handler.route(&Method::DELETE, "/x"), Route::Reject));
}

#[test]
fn fixed_route_answers_ok_even_without_content() {
    let resp = Route::Fixed("index.html".to_string()).respond(None);
    assert_eq!(resp.serialize(), "HTTP/1.1 200 OK\r\n\r\n");
    let resp = Route::Fixed("index.html".to_string()).respond(Some("<p>hi</p>".to_string()));
    assert_eq!(resp.serialize(), "HTTP/1.1 200 OK\r\n\r\n<p>hi</p>");
}

#[test]
fn lookup_route_answers_404_without_content() {
    let resp = Route::Lookup("/x".to_string()).respond(None);
    assert_eq!(resp.serialize(), "HTTP/1.1 404 Not Found\r\n\r\n");
    let resp = Route::Lookup("/x".to_string()).respond(Some("found".to_string()));
    assert_eq!(resp.serialize(), "HTTP/1.1 200 OK\r\n\r\nfound");
}

#[test]
fn reject_route_answers_404() {
    let resp = Route::Reject.respond(None);
    assert_eq!(resp.serialize(), "HTTP/1.1 404 Not Found\r\n\r\n");
}

#[test]
fn full_path_joins_with_slash() {
    let handler = WebsiteHandler::new("/srv/public".to_string());
    assert_eq!(handler.full_path("index.html"), "/srv/public/index.html");
    assert_eq!(handler.public_path(), "/srv/public");
}
