use serwer::{Cookie, Response, StatusCode, Version};

#[test]
fn response_test_write() {
    let mut response = Response::new(&Version::HTTP_1_1);
    response.set(StatusCode::OK, "Hello World".to_string());
    let result = String::from_utf8(response.write()).unwrap();
    assert_eq!(result, "HTTP/1.1 200 OK\r\nContent-Length: 11\r\n\r\nHello World");
}

#[test]
fn test_write_with_status_code() {
    let mut response = Response::new(&Version::HTTP_1_1);
    response.set_status_code(StatusCode::NotFound);
    let result = String::from_utf8(response.write()).unwrap();
    assert_eq!(result, "HTTP/1.1 404 Not Found\r\n\r\n");
}

#[test]
fn test_write_with_header() {
    let mut response = Response::new(&Version::HTTP_1_1);
    response.set_header("Content-Type", "text/html");
    let result = String::from_utf8(response.write()).unwrap();
    assert_eq!(result, "HTTP/1.1 200 OK\r\nContent-Type: text/html\r\n\r\n");
}

#[test]
fn test_write_with_cookies() {
    let mut response = Response::new(&Version::HTTP_1_1);
    response.set_cookie("id", Cookie::new("id", "1"));
    let result = String::from_utf8(response.write()).unwrap();
    assert_eq!(result, "HTTP/1.1 200 OK\r\nSet-Cookie: id=1\r\n\r\n");
}

#[test]
fn test_write_with_body() {
    let mut response = Response::new(&Version::HTTP_1_1);
    response.set_body("Hello World");
    let result = String::from_utf8(response.write()).unwrap();
    assert_eq!(result, "HTTP/1.1 200 OK\r\nContent-Length: 11\r\n\r\nHello World");
}

#[test]
fn response_chaining_and_bytes() {
    let mut response = Response::new(&Version::HTTP_1_0);
    response
        .set_status_code(StatusCode::Created)
        .set_header("x-test", "t")
        .set_body_from_bytes(vec![0, 159, 146, 150]);
    let bytes = response.write();
    let mut expected = b"HTTP/1.0 201 Created\r\nContent-Length: 4\r\nX-Test: t\r\n\r\n".to_vec();
    expected.extend_from_slice(&[0, 159, 146, 150]);
    assert_eq!(bytes, expected);
}

#[test]
fn response_body_length_counts_bytes() {
    let mut response = Response::new(&Version::HTTP_2);
    response.set_body("é");
    assert_eq!(
        String::from_utf8(response.write()).unwrap(),
        "HTTP/2 200 OK\r\nContent-Length: 2\r\n\r\né"
    );
}
