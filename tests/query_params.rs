use serwer::{QueryParams, SerwerError};

#[test]
fn query_params_test_from_string() {
    let string = &String::from("id=1");
    let result = QueryParams::from_string(string).unwrap();
    assert_eq!(result.get_query_param("id"), Some(&String::from("1")));
    assert_eq!(result.get_query_param("name"), None);

    let string = &String::from("id=1&name=John+Doe");
    let result = QueryParams::from_string(string).unwrap();
    assert_eq!(result.get_query_param("id"), Some(&String::from("1")));
    assert_eq!(result.get_query_param("name"), Some(&String::from("John Doe")));
    let query_params = result.clone();

    let string = &String::from("id=1&name=John%20Doe");
    let result = QueryParams::from_string(string);
    assert_eq!(result.unwrap(), query_params);
}

#[test]
fn query_params_test_from_string_invalid_characters() {
    let string = &String::from("name=Jo€hn");
    let result = QueryParams::from_string(string);
    assert!(matches!(
        result,
        Err(SerwerError::InvalidQueryParamCharacters(error_string)) if &error_string == "name=Jo€hn"
    ));

    let string = &String::from("na@me=John");
    let result = QueryParams::from_string(string);
    assert!(matches!(
        result,
        Err(SerwerError::InvalidQueryParamCharacters(error_string)) if &error_string == "na@me=John"
    ));

    let string = &String::from("name=Jo%5Ehn");
    let result = QueryParams::from_string(string);
    assert!(matches!(
        result,
        Err(SerwerError::InvalidQueryParamCharacters(error_string)) if &error_string == "name=Jo%5Ehn"
    ));

    let string = &String::from("name=Jo hn");
    let result = QueryParams::from_string(string);
    assert!(matches!(
        result,
        Err(SerwerError::InvalidQueryParamCharacters(error_string)) if &error_string == "name=Jo hn"
    ));

    let string = &String::from("name=Jo%hn");
    let result = QueryParams::from_string(string);
    assert!(matches!(result, Err(SerwerError::ParseIntError(_))));
}

#[test]
fn test_from_string_invalid_ampersands() {
    let string = &String::from("&id=1");
    let result = QueryParams::from_string(string);
    assert!(
        matches!(result, Err(SerwerError::InvalidQueryParam(error_string)) if &error_string == "")
    );

    let string = &String::from("id=1&");
    let result = QueryParams::from_string(string);
    assert!(
        matches!(result, Err(SerwerError::InvalidQueryParam(error_string)) if &error_string == "")
    );

    let string = &String::from("id=1&&name=John");
    let result = QueryParams::from_string(string);
    assert!(
        matches!(result, Err(SerwerError::InvalidQueryParam(error_string)) if &error_string == "")
    );
}

#[test]
fn query_params_test_from_string_empty() {
    let string = &String::from("");
    let result = QueryParams::from_string(string);
    assert!(
        matches!(result, Err(SerwerError::InvalidQueryParam(error_string)) if &error_string == "")
    );

    let string = &String::from("=");
    let result = QueryParams::from_string(string);
    assert!(
        matches!(result, Err(SerwerError::InvalidQueryParam(error_string)) if &error_string == "=")
    );
}

#[test]
fn test_from_string_invalid_query_param() {
    let string = &String::from("id=");
    let result = QueryParams::from_string(string);
    assert!(
        matches!(result, Err(SerwerError::InvalidQueryParam(error_string)) if &error_string == "id=")
    );

    let string = &String::from("=1");
    let result = QueryParams::from_string(string);
    assert!(
        matches!(result, Err(SerwerError::InvalidQueryParam(error_string)) if &error_string == "=1")
    );

    let string = &String::from("id=1&name=");
    let result = QueryParams::from_string(string);
    assert!(
        matches!(result, Err(SerwerError::InvalidQueryParam(error_string)) if &error_string == "name=")
    );
}

#[test]
fn query_params_later_part_wins_and_trims() {
    let result = QueryParams::from_string("a=1&b=2&a=3").unwrap();
    assert_eq!(result.get_query_param("a"), Some(&String::from("3")));
    assert_eq!(result.get_query_param("b"), Some(&String::from("2")));
    let result = QueryParams::from_string("a= x ").unwrap();
    assert_eq!(result.get_query_param("a"), Some(&String::from("x")));
    assert_eq!(
        QueryParams::from_string("a=%4"),
        Err(SerwerError::DecodeError(String::from("%4")))
    );
    assert!(matches!(
        QueryParams::from_string("a=/?"),
        Err(SerwerError::InvalidQueryParamCharacters(e)) if e == "a=/?"
    ));
    assert_eq!(
        QueryParams::from_string("a=%2F%3F").unwrap().get_query_param("a"),
        Some(&String::from("/?"))
    );
}
