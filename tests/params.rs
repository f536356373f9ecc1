use serwer::Params;

#[test]
fn params_test_new() {
    let params = Params::new();
    assert_eq!(params.param("user"), None);
    assert_eq!(params, Params::new());
}

#[test]
fn test_param() {
    let mut params = Params::new();
    params.set_param("user", "1");
    assert_eq!(params.param("user").unwrap(), "1");
}

#[test]
fn test_set_param() {
    let mut params = Params::new();
    params.set_param("user", "1");
    assert_ne!(params, Params::new());
    assert_eq!(params.param("user").unwrap(), "1");
    params.set_param("user", "2");
    assert_eq!(params.param("user").unwrap(), "2");
    let mut one = Params::new();
    one.set_param("user", "2");
    assert_eq!(params, one);
}

#[test]
fn params_equal_whatever_the_order() {
    let mut a = Params::new();
    a.set_param("x", "1");
    a.set_param("y", "2");
    let mut b = Params::new();
    b.set_param("y", "2");
    b.set_param("x", "1");
    assert_eq!(a, b);
}
