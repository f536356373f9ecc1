use serwer::{Cookie, Method, Params, Path, Request, SerwerError, Version};

fn request_from_bytes(data: &[u8]) -> Result<Request, SerwerError> {
    Request::from_bytes(data)
}

#[test]
fn test_from_stream() {
    let result = request_from_bytes("GET / HTTP/1.1\r\n\r\n".as_bytes()).unwrap();

    assert_eq!(result.method(), Method::GET);
    assert_eq!(result.original_url(), "/");
    assert_eq!(result.version(), Version::HTTP_1_1);
    assert_eq!(result.body().unwrap(), String::from(""));
}

#[test]
fn test_from_stream_http_0_9() {
    let result = request_from_bytes("GET /\r\n\r\n".as_bytes()).unwrap();

    assert_eq!(result.method(), Method::GET);
    assert_eq!(result.original_url(), "/");
    assert_eq!(result.version(), Version::HTTP_0_9);
    assert_eq!(result.body().unwrap(), String::from(""));
}

#[test]
fn test_from_stream_headers() {
    let result = request_from_bytes(
        "GET / HTTP/1.1\r\nHost: localhost:80\r\nConnection: keep-alive\r\n\r\n".as_bytes(),
    )
    .unwrap();

    assert_eq!(result.method(), Method::GET);
    assert_eq!(result.original_url(), "/");
    assert_eq!(result.version(), Version::HTTP_1_1);
    assert_eq!(result.body().unwrap(), String::from(""));
    assert_eq!(result.header("Host"), Some(String::from("localhost:80")));
    assert_eq!(result.header("Connection"), Some(String::from("keep-alive")));
}

#[test]
fn test_from_stream_cookies() {
    let result =
        request_from_bytes("GET / HTTP/1.1\r\nCookie: id=1; name=John\r\n\r\n".as_bytes()).unwrap();

    assert_eq!(result.method(), Method::GET);
    assert_eq!(result.original_url(), "/");
    assert_eq!(result.version(), Version::HTTP_1_1);
    assert_eq!(result.body().unwrap(), String::from(""));
    assert_eq!(result.cookie("id"), Some(Cookie::from_string("id=1").unwrap()));
    assert_eq!(result.cookie("name"), Some(Cookie::from_string("name=John").unwrap()));
}

#[test]
fn test_from_stream_body() {
    let result =
        request_from_bytes("POST / HTTP/1.1\r\nContent-Length: 11\r\n\r\nHello World".as_bytes())
            .unwrap();

    assert_eq!(result.method(), Method::POST);
    assert_eq!(result.original_url(), "/");
    assert_eq!(result.version(), Version::HTTP_1_1);
    assert_eq!(result.body().unwrap(), String::from("Hello World"));
    assert_eq!(result.body_as_bytes(), String::from("Hello World").as_bytes());
    assert_eq!(result.param("id"), None);
}

#[test]
fn test_from_stream_query_params() {
    let result = request_from_bytes("GET /?id=1&name=John HTTP/1.1\r\n\r\n".as_bytes()).unwrap();

    assert_eq!(result.method(), Method::GET);
    assert_eq!(result.original_url(), "/?id=1&name=John");
    assert_eq!(result.version(), Version::HTTP_1_1);
    assert_eq!(result.body().unwrap(), String::from(""));
    assert_eq!(result.query_param("id"), Some(String::from("1")));
    assert_eq!(result.query_param("name"), Some(String::from("John")));
}

#[test]
fn test_from_stream_path() {
    let result = request_from_bytes("GET / HTTP/1.1\r\n\r\n".as_bytes()).unwrap();

    assert_eq!(result.path(), &Path::from_string("/").unwrap());
}

#[test]
fn test_from_stream_set_params() {
    let mut result = request_from_bytes("GET / HTTP/1.1\r\n\r\n".as_bytes()).unwrap();
    let mut params = Params::new();
    params.set_param("user", "1");
    result.set_params(params);

    assert_eq!(result.param("user").unwrap(), String::from("1"));
}

#[test]
fn test_from_stream_invalid_request_line() {
    let result = request_from_bytes("GET / HTTP/1.1".as_bytes());

    assert!(matches!(
        result,
        Err(SerwerError::InvalidRequestLine(error_string)) if &error_string == "GET / HTTP/1.1"
    ));

    let result = request_from_bytes("GET\r\n\r\n".as_bytes());
    assert!(matches!(
        result,
        Err(SerwerError::InvalidRequestLine(error_string)) if &error_string == "GET"
    ));
}

#[test]
fn test_from_stream_invalid_request_headers() {
    let result = request_from_bytes("GET / HTTP/1.1\r\nHost: localhost:80".as_bytes());

    assert!(matches!(
        result,
        Err(SerwerError::HeaderMissingTailingCRLF(error_string)) if &error_string == "Host: localhost:80"
    ));
}

#[test]
fn test_from_stream_body_not_utf8() {
    let mut bytes = "POST / HTTP/1.1\r\nContent-Length: 12\r\n\r\nHello World".as_bytes().to_vec();
    bytes.push(128);
    let result = request_from_bytes(bytes.as_slice()).unwrap();

    assert!(matches!(result.body(), Err(SerwerError::FromUtf8Error(_))));
}

#[test]
fn request_errors_by_kind() {
    assert_eq!(
        Request::from_bytes(b"FETCH / HTTP/1.1\r\n\r\n").unwrap_err(),
        SerwerError::InvalidMethod(String::from("FETCH"))
    );
    assert_eq!(
        Request::from_bytes(b"GET / HTTP/1.2\r\n\r\n").unwrap_err(),
        SerwerError::InvalidVersion(String::from("HTTP/1.2"))
    );
    assert_eq!(
        Request::from_bytes(b"GET user HTTP/1.1\r\n\r\n").unwrap_err(),
        SerwerError::PathMissingLeadingSlash(String::from("user"))
    );
    assert_eq!(
        Request::from_bytes(b"GET / HTTP/1.1 x\r\n\r\n").unwrap_err(),
        SerwerError::InvalidRequestLine(String::from("GET / HTTP/1.1 x"))
    );
    assert_eq!(
        Request::from_bytes(b"GET / HTTP/1.1\r\nBad Header\r\n\r\n").unwrap_err(),
        SerwerError::InvalidHeader(String::from("Bad Header"))
    );
    assert_eq!(
        Request::from_bytes(b"GET / HTTP/1.1\r\nCookie: a\r\n\r\n").unwrap_err(),
        SerwerError::InvalidCookie(String::from("a"))
    );
    assert_eq!(
        Request::from_bytes(b"POST / HTTP/1.1\r\nContent-Length: 5\r\n\r\nabc").unwrap_err(),
        SerwerError::RequestBufferReadError
    );
    assert_eq!(Request::from_bytes(b"").unwrap_err(), SerwerError::InvalidRequestLine(String::new()));
    assert_eq!(
        Request::from_bytes(b"GET /\xff HTTP/1.1\r\n\r\n").unwrap_err(),
        SerwerError::IoError(String::from("stream did not contain valid UTF-8"))
    );
}

#[test]
fn request_content_length_edge_cases() {
    let r = Request::from_bytes(b"POST / HTTP/1.1\r\nContent-Length: abc\r\n\r\nxyz").unwrap();
    assert_eq!(r.body_as_bytes(), Vec::<u8>::new());
    let r = Request::from_bytes(b"POST / HTTP/1.1\r\ncontent-length: +3\r\n\r\nxyzw").unwrap();
    assert_eq!(r.body_as_bytes(), b"xyz".to_vec());
    let r = Request::from_bytes(
        b"POST / HTTP/1.1\r\nContent-Length: 99999999999999999999999\r\n\r\nxyz",
    )
    .unwrap();
    assert_eq!(r.body_as_bytes(), Vec::<u8>::new());
}
