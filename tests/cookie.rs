use serwer::{Cookie, Cookies, SerwerError};

#[test]
fn cookie_test_from_string() {
    let string = &String::from("id=1");
    let result = Cookie::from_string(string);
    assert_eq!(result, Ok(Cookie::new("id", "1")));

    let string = &String::from("name=\"John\"");
    let result = Cookie::from_string(string);
    assert_eq!(result, Ok(Cookie::new("name", "\"John\"")));
}

#[test]
fn cookie_test_from_string_invalid_characters() {
    let string = &String::from("name=Jo,hn");
    let result = Cookie::from_string(string);
    assert_eq!(result, Err(SerwerError::InvalidCookieCharacters(string.clone())));

    let string = &String::from("na@me=John");
    let result = Cookie::from_string(string);
    assert_eq!(result, Err(SerwerError::InvalidCookieCharacters(string.clone())));
}

#[test]
fn test_from_string_invalid_double_quotes() {
    let string = &String::from("name=\"John");
    let result = Cookie::from_string(string);
    assert_eq!(result, Err(SerwerError::InvalidCookieCharacters(string.clone())));

    let string = &String::from("name=John\"");
    let result = Cookie::from_string(string);
    assert_eq!(result, Err(SerwerError::InvalidCookieCharacters(string.clone())));

    let string = &String::from("name=\"Joh\"n");
    let result = Cookie::from_string(string);
    assert_eq!(result, Err(SerwerError::InvalidCookieCharacters(string.clone())));
}

#[test]
fn test_from_string_invalid_cookie() {
    let string = &String::from("=John");
    let result = Cookie::from_string(string);
    assert_eq!(result, Err(SerwerError::InvalidCookie(string.clone())));

    let string = &String::from("name=");
    let result = Cookie::from_string(string);
    assert_eq!(result, Err(SerwerError::InvalidCookie(string.clone())));
}

#[test]
fn cookie_test_from_string_empty() {
    let string = &String::from("");
    let result = Cookie::from_string(string);
    assert_eq!(result, Err(SerwerError::InvalidCookie(string.clone())));

    let string = &String::from("=");
    let result = Cookie::from_string(string);
    assert_eq!(result, Err(SerwerError::InvalidCookie(string.clone())));
}

#[test]
fn test_cookie_builder() {
    let cookie = Cookie::new("id", "1")
        .set_expires("Mon, 18 Dec 2023 06:11:00 GMT")
        .set_max_age(86400)
        .set_domain("localhost")
        .set_path("/")
        .set_secure(true)
        .set_http_only(true)
        .set_same_site("Strict");

    assert_eq!(cookie.get_name(), "id");
    assert_eq!(
        cookie.get_expires(),
        Some(&String::from("Mon, 18 Dec 2023 06:11:00 GMT"))
    );
    assert_eq!(cookie.get_max_age(), Some(&86400));
    assert_eq!(cookie.get_domain(), Some(&String::from("localhost")));
    assert_eq!(cookie.get_path(), Some(&String::from("/")));
    assert_eq!(cookie.get_secure(), true);
    assert_eq!(cookie.get_http_only(), true);
    assert_eq!(cookie.get_same_site(), Some(&String::from("Strict")));
}

#[test]
fn cookies_test_from_string() {
    let string = &String::from("id=1");
    let result = Cookies::from_string(string);

    let mut cookies = Cookies::new();
    cookies.set_cookie("id", Cookie::from_string("id=1").unwrap());

    assert_eq!(result.unwrap(), cookies.clone());

    let string = &String::from("id=1; name=John");
    let result = Cookies::from_string(string);

    cookies.set_cookie("name", Cookie::from_string("name=John").unwrap());

    assert_eq!(result.unwrap(), cookies.clone());
}

#[test]
fn test_from_string_invalid_semicolon() {
    let string = &String::from(";id=1");
    let result = Cookies::from_string(string);
    assert!(
        matches!(result, Err(SerwerError::InvalidCookieCharacters(error_string)) if &error_string == ";id=1")
    );

    let string = &String::from("id=1;");
    let result = Cookies::from_string(string);
    assert!(
        matches!(result, Err(SerwerError::InvalidCookieCharacters(error_string)) if &error_string == "id=1;")
    );

    let string = &String::from("id=1;; name=John");
    let result = Cookies::from_string(string);
    assert!(
        matches!(result, Err(SerwerError::InvalidCookieCharacters(error_string)) if &error_string == "id=1;")
    );

    let string = &String::from("id=1;name=John");
    let result = Cookies::from_string(string);
    assert!(
        matches!(result, Err(SerwerError::InvalidCookieCharacters(error_string)) if &error_string == "id=1;name=John")
    );
}

#[test]
fn cookies_test_from_string_empty() {
    let string = &String::from("");
    let result = Cookies::from_string(string);
    assert_eq!(result.unwrap(), Cookies::new());
}

#[test]
fn cookies_test_to_bytes() {
    let mut cookies = Cookies::new();
    cookies.set_cookie(
        "id",
        Cookie::new("id", "1")
            .set_expires("Mon, 18 Dec 2023 06:11:00 GMT")
            .set_domain("localhost")
            .set_path("/")
            .set_secure(true),
    );
    cookies.set_cookie(
        "name",
        Cookie::new("name", "John")
            .set_max_age(86400)
            .set_http_only(true)
            .set_same_site("Strict"),
    );
    let result = cookies.to_bytes();
    assert_eq!(
        String::from_utf8(result).unwrap(),
        String::from("Set-Cookie: id=1; Expires=Mon, 18 Dec 2023 06:11:00 GMT; Domain=localhost; Path=/; Secure\r\nSet-Cookie: name=John; Max-Age=86400; HttpOnly; SameSite=Strict\r\n")
    )
}

#[test]
fn cookie_pair_parse_then_lookup() {
    let cookies = Cookies::from_string("id=1; name=John").unwrap();
    assert_eq!(cookies.cookie("id"), Some(&Cookie::new("id", "1")));
    assert_eq!(cookies.cookie("name"), Some(&Cookie::new("name", "John")));
    assert_eq!(cookies.cookie("other"), None);
}

#[test]
fn cookie_with_every_attribute_serializes() {
    let mut cookies = Cookies::new();
    cookies.set_cookie(
        "s",
        Cookie::new("s", "v")
            .set_expires("Thu, 01 Jan 1970 00:00:00 GMT")
            .set_max_age(0)
            .set_domain("example.com")
            .set_path("/a")
            .set_secure(true)
            .set_http_only(true)
            .set_same_site("Lax"),
    );
    assert_eq!(
        String::from_utf8(cookies.to_bytes()).unwrap(),
        "Set-Cookie: s=v; Expires=Thu, 01 Jan 1970 00:00:00 GMT; Max-Age=0; Domain=example.com; Path=/a; Secure; HttpOnly; SameSite=Lax\r\n"
    );
    assert_eq!(
        String::from_utf8(cookies.to_bytes()).unwrap(),
        String::from_utf8(cookies.clone().to_bytes()).unwrap()
    );
}

#[test]
fn cookie_lone_quote_is_refused() {
    assert_eq!(
        Cookie::from_string("a=\""),
        Err(SerwerError::InvalidCookieCharacters(String::from("a=\"")))
    );
}
