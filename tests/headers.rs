use serwer::{Headers, SerwerError};

#[test]
fn test_set_header_from_string() {
    let mut headers = Headers::new();
    let result = headers.set_header_from_string("Host: localhost:80");
    assert_eq!(result.unwrap(), ());
    assert_eq!(headers.header("Host"), Some(&String::from("localhost:80")));

    let mut headers = Headers::new();
    let result = headers.set_header_from_string("Host:");
    assert_eq!(result.unwrap(), ());
    assert_eq!(headers.header("Host"), Some(&String::from("")));

    let mut headers = Headers::new();
    let result = headers.set_header_from_string("Host:   local  host:80  ");
    assert_eq!(result.unwrap(), ());
    assert_eq!(headers.header("Host"), Some(&String::from("local  host:80")));
}

#[test]
fn test_set_header_from_string_invalid_characters() {
    let mut headers = Headers::new();
    let result = headers.set_header_from_string("Ho@st: localhost:80");
    assert!(
        matches!(result, Err(SerwerError::InvalidHeaderCharacters(error_string)) if &error_string == "Ho@st: localhost:80")
    );
    assert_eq!(headers.header("Ho@st"), None);

    let mut headers = Headers::new();
    let result = headers.set_header_from_string("Host: localh€ost:80");
    assert!(
        matches!(result, Err(SerwerError::InvalidHeaderCharacters(error_string)) if &error_string == "Host: localh€ost:80")
    );
    assert_eq!(headers.header("Host"), None);
}

#[test]
fn test_set_header_from_string_invalid_header() {
    let mut headers = Headers::new();
    let result = headers.set_header_from_string("Connection keep-alive");
    assert!(
        matches!(result, Err(SerwerError::InvalidHeader(error_string)) if &error_string == "Connection keep-alive")
    );
    assert_eq!(headers.header("Host"), None);

    let mut headers = Headers::new();
    let result = headers.set_header_from_string(": localhost:80");
    assert!(
        matches!(result, Err(SerwerError::InvalidHeader(error_string)) if &error_string == ": localhost:80")
    );
    assert_eq!(headers.header(""), None);
}

#[test]
fn test_set_header_from_string_empty() {
    let mut headers = Headers::new();
    let result = headers.set_header_from_string("");
    assert!(
        matches!(result, Err(SerwerError::InvalidHeader(error_string)) if &error_string == "")
    );
    assert_eq!(headers.header(""), None);

    let mut headers = Headers::new();
    let result = headers.set_header_from_string(":");
    assert!(
        matches!(result, Err(SerwerError::InvalidHeader(error_string)) if &error_string == ":")
    );
    assert_eq!(headers.header(""), None);
}

#[test]
fn headers_test_to_bytes() {
    let mut headers = Headers::new();
    headers.set_header("Host", "localhost:80");
    headers.set_header("Connection", "keep-alive");
    let result = headers.to_bytes();
    assert_eq!(
        String::from_utf8(result).unwrap(),
        String::from("Connection: keep-alive\r\nHost: localhost:80\r\n")
    )
}

#[test]
fn header_names_are_case_insensitive() {
    let mut headers = Headers::new();
    headers.set_header("content-LENGTH", "5");
    assert_eq!(headers.header("Content-Length"), Some(&String::from("5")));
    assert_eq!(headers.header("CONTENT-length"), Some(&String::from("5")));
    headers.set_header("Content-Length", "6");
    assert_eq!(
        String::from_utf8(headers.to_bytes()).unwrap(),
        "Content-Length: 6\r\n"
    );
}

#[test]
fn header_round_trip_from_line() {
    let mut headers = Headers::new();
    headers.set_header_from_string("X-Custom-Thing:\tvalue one ").unwrap();
    assert_eq!(headers.header("x-custom-thing"), Some(&String::from("value one")));
    assert_eq!(
        String::from_utf8(headers.to_bytes()).unwrap(),
        "X-Custom-Thing: value one\r\n"
    );
}

#[test]
fn header_errors_are_distinct() {
    let mut headers = Headers::new();
    let no_colon = headers.set_header_from_string("Host localhost");
    let bad_char = headers.set_header_from_string("Ho st: localhost");
    assert_eq!(no_colon, Err(SerwerError::InvalidHeader(String::from("Host localhost"))));
    assert_eq!(
        bad_char,
        Err(SerwerError::InvalidHeaderCharacters(String::from("Ho st: localhost")))
    );
}
