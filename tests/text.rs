use requestie::{numbered, HttpMethod};

#[test]
fn method_names_in_order() {
    let names: Vec<&str> = HttpMethod::all().iter().map(|m| m.name()).collect();
    assert_eq!(names, vec!["GET", "HEAD", "PUT", "POST", "PATCH", "DELETE"]);
}

#[test]
fn method_names_read_back() {
    for m in HttpMethod::all() {
        assert_eq!(HttpMethod::from_name(m.name()), Some(m));
    }
    assert_eq!(HttpMethod::from_name("PATCH"), Some(HttpMethod::PATCH));
    assert_eq!(HttpMethod::from_name("get"), None);
    assert_eq!(HttpMethod::from_name(""), None);
    assert_eq!(HttpMethod::from_name("OPTIONS"), None);
}

#[test]
fn numbered_labels() {
    assert_eq!(numbered("New Request ", 0), "New Request 0");
    assert_eq!(numbered("New Request ", 9), "New Request 9");
    assert_eq!(numbered("x", 10), "x10");
    assert_eq!(numbered("", 4096), "4096");
    assert_eq!(numbered("n", usize::MAX), format!("n{}", usize::MAX));
}
