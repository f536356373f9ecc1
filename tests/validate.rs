use serwer::{validate_path, SerwerError};

#[test]
fn path_validation() {
    let path = "user";
    let result = validate_path(path);
    assert_eq!(result, Ok(()));
}

#[test]
fn path_validation_slash_at_the_start_or_end() {
    let path = "/user";
    let result = validate_path(path);
    assert_eq!(result, Err(SerwerError::InvalidPathSlashes));

    let path = "user/";
    let result = validate_path(path);
    assert_eq!(result, Err(SerwerError::InvalidPathSlashes));
}

#[test]
fn path_validation_double_slash() {
    let path = "user//user";
    let result = validate_path(path);
    assert_eq!(result, Err(SerwerError::InvalidPathPart));
}

#[test]
fn path_validation_invalid_char() {
    let path = "us`er";
    let result = validate_path(path);
    assert_eq!(result, Err(SerwerError::InvalidPathCharacters));
}

#[test]
fn path_validation_param() {
    let path = "user/<user>";
    let result = validate_path(path);
    assert_eq!(result, Ok(()));
}

#[test]
fn path_validation_no_param_name() {
    let path = "user/<>";
    let result = validate_path(path);
    assert_eq!(result, Err(SerwerError::InvalidPathPart));
}

#[test]
fn path_validation_double_param_char() {
    let path = "user/<<user>";
    let result = validate_path(path);
    assert_eq!(result, Err(SerwerError::InvalidPathCharacters));
}

#[test]
fn path_validation_param_char_in_the_middle() {
    let path = "user/<us>er";
    let result = validate_path(path);
    assert_eq!(result, Err(SerwerError::InvalidPathPart));
}

#[test]
fn path_validation_empty() {
    assert_eq!(validate_path(""), Err(SerwerError::InvalidPathPart));
    assert_eq!(validate_path("a/<b>/c9"), Ok(()));
}
