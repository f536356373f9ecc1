use serwer::{Params, Path, QueryParams, Segment, SerwerError};

fn segments(texts: &[&str]) -> Vec<Segment> {
    texts.iter().map(|t| Segment::from_string(t).unwrap()).collect()
}

fn check(result: Result<Path, SerwerError>, string: &str, segs: &[&str], query: QueryParams) {
    let path = result.unwrap();
    assert_eq!(path.get_string(), string);
    assert_eq!(path.get_segments(), &segments(segs));
    assert_eq!(path.get_query_params(), &query);
}

#[test]
fn path_test_from_string() {
    let string = &String::from("/user");
    check(Path::from_string(string), "/user", &["user"], QueryParams::new());

    let string = &String::from("/user/");
    assert_eq!(Path::from_string(string), Err(SerwerError::InvalidPathSlashes));

    let string = &String::from("/user/<id>");
    check(Path::from_string(string), "/user/<id>", &["user", "<id>"], QueryParams::new());

    let string = &String::from("/user//<id>");
    assert_eq!(Path::from_string(string), Err(SerwerError::InvalidPathSlashes));
}

#[test]
fn test_from_string_with_query_params() {
    let string = &String::from("/user?id=1");
    check(
        Path::from_string(string),
        "/user?id=1",
        &["user"],
        QueryParams::from_string("id=1").unwrap(),
    );

    let string = &String::from("/user?");
    assert_eq!(
        Path::from_string(string),
        Err(SerwerError::InvalidQueryParam(String::from("")))
    );
}

#[test]
fn test_from_string_with_fragment() {
    let string = &String::from("/user#header");
    check(Path::from_string(string), "/user#header", &["user"], QueryParams::new());

    let string = &String::from("/user?id=1#header");
    check(
        Path::from_string(string),
        "/user?id=1#header",
        &["user"],
        QueryParams::from_string("id=1").unwrap(),
    );
}

#[test]
fn path_test_from_string_empty() {
    let string = &String::from("");
    assert_eq!(
        Path::from_string(string),
        Err(SerwerError::PathMissingLeadingSlash(string.clone()))
    );

    let string = &String::from("/");
    check(Path::from_string(string), "/", &[], QueryParams::new());

    let string = &String::from("/?id=1");
    check(Path::from_string(string), "/?id=1", &[], QueryParams::from_string("id=1").unwrap());
}

#[test]
fn test_from_string_invalid_slashes() {
    let string = &String::from("user");
    assert_eq!(
        Path::from_string(string),
        Err(SerwerError::PathMissingLeadingSlash(string.clone()))
    );
}

#[test]
fn test_from_string_duplicate_params() {
    let string = &String::from("/user/<id>/<id>");
    let result = Path::from_string(string);
    assert_eq!(
        result,
        Err(SerwerError::PathContainsDuplicateParams(String::from("/user/<id>/<id>")))
    );
}

#[test]
fn test_matches() {
    let path = Path::from_string(&String::from("/user")).unwrap();
    let other_path = Path::from_string(&String::from("/user")).unwrap();
    let result = path.matches(&other_path);
    assert_eq!(result, (true, Some(Params::new())));

    let mut params = Params::new();
    params.set_param("user_id", "1");
    params.set_param("post_id", "2");

    let path = Path::from_string(&String::from("/user/1/post/2")).unwrap();
    let other_path = Path::from_string(&String::from("/user/<user_id>/post/<post_id>")).unwrap();
    let result = path.matches(&other_path);
    assert_eq!(result, (true, Some(params.clone())));
    let result = other_path.matches(&path);
    assert_eq!(result, (true, Some(params.clone())));
}

#[test]
fn test_matches_empty() {
    let path = Path::from_string(&String::from("/")).unwrap();
    let other_path = Path::from_string(&String::from("/")).unwrap();
    let result = path.matches(&other_path);
    let params = Params::new();
    assert_eq!(result, (true, Some(params)));

    let path = Path::from_string(&String::from("/")).unwrap();
    let other_path = Path::from_string(&String::from("/<>")).unwrap();
    let result = path.matches(&other_path);
    assert_eq!(result, (false, None));
}

#[test]
fn test_matches_with_query_params_and_fragments() {
    let path = Path::from_string(&String::from("/user/3?show=true")).unwrap();
    let other_path = Path::from_string(&String::from("/user/<id>")).unwrap();
    let result = path.matches(&other_path);
    let mut params = Params::new();
    params.set_param("id", "3");
    assert_eq!(result, (true, Some(params.clone())));

    let path = Path::from_string(&String::from("/user/3#header")).unwrap();
    let other_path = Path::from_string(&String::from("/user/<id>")).unwrap();
    let result = path.matches(&other_path);
    assert_eq!(result, (true, Some(params.clone())));

    let path = Path::from_string(&String::from("/user/3?show=true#header")).unwrap();
    let other_path = Path::from_string(&String::from("/user/<id>")).unwrap();
    let result = path.matches(&other_path);
    assert_eq!(result, (true, Some(params)));
}

#[test]
fn test_matches_param_in_both_paths() {
    let path = Path::from_string(&String::from("/user/<profile>")).unwrap();
    let other_path = Path::from_string(&String::from("/user/<id>")).unwrap();
    let result = path.matches(&other_path);
    assert_eq!(result, (false, None));

    let path = Path::from_string(&String::from("/user/<id>")).unwrap();
    let other_path = Path::from_string(&String::from("/user/<id>")).unwrap();
    let result = path.matches(&other_path);
    assert_eq!(result, (false, None));
}

#[test]
fn test_matches_not() {
    let path = Path::from_string(&String::from("/user")).unwrap();
    let other_path = Path::from_string(&String::from("/profile")).unwrap();
    let result = path.matches(&other_path);
    assert_eq!(result, (false, None));

    let path = Path::from_string(&String::from("/user")).unwrap();
    let other_path = Path::from_string(&String::from("/user/<id>")).unwrap();
    let result = path.matches(&other_path);
    assert_eq!(result, (false, None));

    let path = Path::from_string(&String::from("/user/1/post/2")).unwrap();
    let other_path = Path::from_string(&String::from("/user/<id>")).unwrap();
    let result = path.matches(&other_path);
    assert_eq!(result, (false, None));

    let path = Path::from_string(&String::from("/user/<user_id>/post/2")).unwrap();
    let other_path = Path::from_string(&String::from("/user/1/post/<post_id>")).unwrap();
    let result = path.matches(&other_path);
    assert_eq!(result, (false, None));
}

#[test]
fn matching_is_symmetric_on_examples() {
    let cases = [
        ("/user/<id>", "/user/42"),
        ("/a/b", "/a/b"),
        ("/a/b", "/a/c"),
        ("/<x>/<y>", "/1/2"),
        ("/", "/"),
    ];
    for (a, b) in cases.iter() {
        let p = Path::from_string(a).unwrap();
        let q = Path::from_string(b).unwrap();
        assert_eq!(p.matches(&q), q.matches(&p));
    }
}

#[test]
fn matching_needs_equal_arity() {
    let pairs = [("/<id>", "/user/42"), ("/a", "/a/b"), ("/", "/a"), ("/<a>/<b>", "/x")];
    for (a, b) in pairs.iter() {
        let p = Path::from_string(a).unwrap();
        let q = Path::from_string(b).unwrap();
        assert_eq!(p.matches(&q), (false, None));
    }
}

#[test]
fn parameter_binding_on_user_id() {
    let pattern = Path::from_string("/user/<id>").unwrap();
    let concrete = Path::from_string("/user/42").unwrap();
    let (matched, params) = pattern.matches(&concrete);
    assert!(matched);
    assert_eq!(params.unwrap().param("id"), Some(&String::from("42")));
}

#[test]
fn query_string_does_not_change_matching() {
    let pattern = Path::from_string("/user").unwrap();
    let with_query = Path::from_string("/user?x=1").unwrap();
    let without = Path::from_string("/user").unwrap();
    assert_eq!(with_query.get_segments(), without.get_segments());
    assert_eq!(pattern.matches(&with_query), pattern.matches(&without));
    assert_eq!(with_query.get_query_param("x"), Some(&String::from("1")));
    assert_eq!(without.get_query_param("x"), None);
}

#[test]
fn path_contains_params() {
    assert!(Path::from_string("/a/<b>").unwrap().contains_params());
    assert!(!Path::from_string("/a/b").unwrap().contains_params());
    assert!(!Path::from_string("/").unwrap().contains_params());
}

#[test]
fn path_segment_errors_come_through() {
    assert_eq!(
        Path::from_string("/us er"),
        Err(SerwerError::InvalidPathSegmentCharacters(String::from("us er")))
    );
    assert_eq!(
        Path::from_string("/a?x"),
        Err(SerwerError::InvalidQueryParam(String::from("x")))
    );
}
