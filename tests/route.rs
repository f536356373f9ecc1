use serwer::{
    handle_request, route_exists, Action, Method, Path, Request, Response, Route, SerwerError,
    StatusCode,
};
use std::sync::{Arc, Mutex};

#[test]
fn test_closure_run() {
    let count = Arc::new(Mutex::new(0));
    let count_clone = Arc::clone(&count);

    let action = Action::new(move |_: Request, response: Response| {
        let mut count = count_clone.lock().unwrap();
        *count += 1;
        response
    });

    let request = Request::from_bytes(b"GET / HTTP/1.1\r\n\r\n").unwrap();
    action.run(request.clone());
    action.run(request.clone());
    action.run(request);

    assert_eq!(*count.lock().unwrap(), 3);
}

#[test]
fn test_new_closure_run() {
    let count = Arc::new(Mutex::new(0));
    let count_clone = Arc::clone(&count);

    let route = Route::new(Method::GET, "/", move |_: Request, res: Response| {
        let mut count = count_clone.lock().unwrap();
        *count += 1;
        res
    })
    .unwrap();

    let request = Request::from_bytes(b"GET / HTTP/1.1\r\n\r\n").unwrap();
    route.run_action(request.clone());
    route.run_action(request.clone());
    route.run_action(request);

    assert_eq!(*count.lock().unwrap(), 3);
}

fn hello(_: Request, mut res: Response) -> Response {
    res.set(StatusCode::OK, "Hello World".to_string());
    res
}

#[test]
fn worker_test_handle_stream() {
    let route = Route::new(Method::GET, "/", hello).unwrap();
    let routes = vec![route];

    let response = handle_request(&routes, b"GET / HTTP/1.1\r\n\r\n");

    assert_eq!(
        String::from_utf8_lossy(response.write().as_slice()),
        "HTTP/1.1 200 OK\r\nContent-Length: 11\r\n\r\nHello World"
    );
}

#[test]
fn test_handle_stream_bad_request() {
    let route = Route::new(Method::GET, "/", hello).unwrap();
    let routes = vec![route];

    let response = handle_request(&routes, b"GET / HTTP/1.1\r\n");

    assert_eq!(
        String::from_utf8_lossy(response.write().as_slice()),
        "HTTP/1.1 400 Bad Request\r\n\r\n"
    );
}

#[test]
fn test_handle_stream_not_found() {
    let route = Route::new(Method::GET, "/hello", hello).unwrap();
    let routes = vec![route];

    let response = handle_request(&routes, b"GET / HTTP/1.1\r\n\r\n");

    assert_eq!(
        String::from_utf8_lossy(response.write().as_slice()),
        "HTTP/1.1 404 Not Found\r\n\r\n"
    );
}

fn user(req: Request, mut res: Response) -> Response {
    let id = req.param("id").unwrap();
    res.set(StatusCode::OK, format!("user id: {}", id));
    res
}

#[test]
fn end_to_end_user_route() {
    let routes = vec![Route::new(Method::GET, "/user/<id>", user).unwrap()];
    let response = handle_request(&routes, b"GET /user/42 HTTP/1.1\r\n\r\n");
    assert_eq!(
        String::from_utf8(response.write()).unwrap(),
        "HTTP/1.1 200 OK\r\nContent-Length: 11\r\n\r\nuser id: 42"
    );
}

#[test]
fn unregistered_path_is_not_found() {
    let routes = vec![Route::new(Method::GET, "/user/<id>", user).unwrap()];
    let response = handle_request(&routes, b"GET /nothing/here HTTP/1.1\r\n\r\n");
    assert_eq!(String::from_utf8(response.write()).unwrap(), "HTTP/1.1 404 Not Found\r\n\r\n");
    let response = handle_request(&routes, b"POST /user/42 HTTP/1.1\r\n\r\n");
    assert_eq!(String::from_utf8(response.write()).unwrap(), "HTTP/1.1 404 Not Found\r\n\r\n");
}

#[test]
fn first_matching_route_wins_and_all_matches_any_method() {
    let routes: Vec<Route<fn(Request, Response) -> Response>> = vec![
        Route::new(Method::ALL, "/user/<id>", user as fn(Request, Response) -> Response).unwrap(),
        Route::new(Method::POST, "/user/<id>", hello as fn(Request, Response) -> Response).unwrap(),
    ];
    let response = handle_request(&routes, b"POST /user/7 HTTP/1.0\r\n\r\n");
    assert_eq!(
        String::from_utf8(response.write()).unwrap(),
        "HTTP/1.0 200 OK\r\nContent-Length: 10\r\n\r\nuser id: 7"
    );
}

#[test]
fn route_pattern_errors_and_lookup() {
    assert!(matches!(
        Route::new(Method::GET, "/a/<x>/<x>", hello),
        Err(SerwerError::PathContainsDuplicateParams(_))
    ));
    let routes = vec![Route::new(Method::GET, "/a/<x>", hello).unwrap()];
    assert!(route_exists(&routes, &Method::GET, "/a/<x>"));
    assert!(!route_exists(&routes, &Method::POST, "/a/<x>"));
    assert!(!route_exists(&routes, &Method::GET, "/a/<y>"));
    assert_eq!(routes[0].method(), &Method::GET);
    assert_eq!(routes[0].path(), &Path::from_string("/a/<x>").unwrap());
}
