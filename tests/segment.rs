use serwer::{decode, percent_decode, Segment, SerwerError};

fn check(result: Result<Segment, SerwerError>, text: &str, is_param: bool) {
    let segment = result.unwrap();
    assert_eq!(segment.get_string(), text);
    assert_eq!(segment.is_param(), is_param);
}

#[test]
fn segment_test_from_string() {
    check(Segment::from_string(&String::from("user")), "user", false);
    check(Segment::from_string(&String::from("<user>")), "user", true);
}

#[test]
fn segment_test_from_string_empty() {
    check(Segment::from_string(&String::from("")), "", false);
    check(Segment::from_string(&String::from("<>")), "", true);
}

#[test]
fn test_from_string_characters() {
    check(Segment::from_string(&String::from("us-er")), "us-er", false);
    check(Segment::from_string(&String::from("us%21er")), "us!er", false);

    let result = Segment::from_string(&String::from("us%20er"));
    assert!(matches!(
        result,
        Err(SerwerError::InvalidPathSegmentCharacters(error_string)) if &error_string == "us%20er"
    ));

    let result = Segment::from_string(&String::from("us#er"));
    assert!(matches!(
        result,
        Err(SerwerError::InvalidPathSegmentCharacters(error_string)) if &error_string == "us#er"
    ));
}

#[test]
fn test_from_string_invalid_param_chars() {
    let result = Segment::from_string(&String::from("<user"));
    assert!(matches!(
        result,
        Err(SerwerError::InvalidPathSegmentCharacters(error_string)) if &error_string == "<user"
    ));

    let result = Segment::from_string(&String::from("user>"));
    assert!(matches!(
        result,
        Err(SerwerError::InvalidPathSegmentCharacters(error_string)) if &error_string == "user>"
    ));

    let result = Segment::from_string(&String::from("<use>r"));
    assert!(matches!(
        result,
        Err(SerwerError::InvalidPathSegmentCharacters(error_string)) if &error_string == "<use>r"
    ));
}

#[test]
fn segment_escape_errors() {
    assert_eq!(
        Segment::from_string("ab%2"),
        Err(SerwerError::DecodeError(String::from("ab%2")))
    );
    assert_eq!(
        Segment::from_string("<a%>"),
        Err(SerwerError::DecodeError(String::from("a%")))
    );
    assert_eq!(
        Segment::from_string("a%zz"),
        Err(SerwerError::ParseIntError(String::from("invalid digit found in string")))
    );
}

#[test]
fn segment_plain_text_reads_back() {
    for s in ["abc", "A-Z_0.9~", "x", ""].iter() {
        check(Segment::from_string(s), s, false);
        check(Segment::from_string(&format!("<{}>", s)), s, true);
    }
}

#[test]
fn decode_cases() {
    assert_eq!(decode("John+Doe"), Ok(String::from("John Doe")));
    assert_eq!(decode("John%20Doe"), Ok(String::from("John Doe")));
    assert_eq!(decode("a%2Bb"), Ok(String::from("a b")));
    assert_eq!(decode("%41%62"), Ok(String::from("Ab")));
    assert!(matches!(decode("%+9"), Err(SerwerError::ParseIntError(_))));
    assert!(matches!(decode("%+F"), Err(SerwerError::ParseIntError(_))));
    assert_eq!(decode(""), Ok(String::new()));
    assert_eq!(decode("%4"), Err(SerwerError::DecodeError(String::from("%4"))));
    assert_eq!(decode("x%"), Err(SerwerError::DecodeError(String::from("x%"))));
    assert!(matches!(decode("%g1"), Err(SerwerError::ParseIntError(_))));
    assert!(matches!(decode("%zz%"), Err(SerwerError::ParseIntError(_))));
}

#[test]
fn segment_keeps_escaped_plus() {
    check(Segment::from_string("a%2Bb"), "a+b", false);
    check(Segment::from_string("<a%2Bb>"), "a+b", true);
    assert!(matches!(
        Segment::from_string("a+b"),
        Err(SerwerError::InvalidPathSegmentCharacters(e)) if e == "a+b"
    ));
}

#[test]
fn percent_decode_leaves_plus() {
    assert_eq!(percent_decode("a+b%2B"), Ok(String::from("a+b+")));
    assert_eq!(percent_decode("%7e"), Ok(String::from("~")));
    assert_eq!(percent_decode("%"), Err(SerwerError::DecodeError(String::from("%"))));
    assert!(matches!(percent_decode("%+F"), Err(SerwerError::ParseIntError(_))));
}
