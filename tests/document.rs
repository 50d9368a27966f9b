use requestie::{HttpMethod, PanelSelection, Request, RequestieApp};

fn names_of_environments(d: &RequestieApp) -> Vec<String> {
    d.environments().iter().map(|e| e.name.clone()).collect()
}

fn header(name: &str, value: &str) -> (String, String) {
    (name.to_string(), value.to_string())
}

#[test]
fn default_document_is_seeded() {
    let d = RequestieApp::default();
    assert_eq!(d.requests().len(), 1);
    let r = &d.requests()[0];
    assert_eq!(r.name, "Request 1");
    assert_eq!(r.url, "https://example.com");
    assert_eq!(r.method, HttpMethod::GET);
    assert_eq!(r.headers, vec![header("Content-Type", "application/json")]);
    assert_eq!(r.body, "");
    assert_eq!(names_of_environments(&d), vec!["Default".to_string()]);
    assert!(d.environments()[0].values.is_empty());
    assert_eq!(d.selected(), PanelSelection::Request(0));
    assert!(d.is_well_formed());
}

#[test]
fn new_without_stored_document_gives_default() {
    let d = RequestieApp::new(None);
    assert_eq!(d.requests().len(), 1);
    assert_eq!(d.requests()[0].name, "Request 1");
    assert_eq!(names_of_environments(&d), vec!["Default".to_string()]);
    assert_eq!(d.selected(), PanelSelection::Request(0));
}

#[test]
fn new_keeps_stored_document() {
    let mut stored = RequestieApp::default();
    stored.add_environment();
    stored.set_request_url(0, "https://example.org/x".to_string());
    let d = RequestieApp::new(Some(stored));
    assert_eq!(names_of_environments(&d), vec!["Default".to_string(), "New Environment 2".to_string()]);
    assert_eq!(d.requests()[0].url, "https://example.org/x");
    assert_eq!(d.selected(), PanelSelection::Environment(1));
}

#[test]
fn from_parts_rejects_dangling_selection_and_no_environment() {
    let (requests, environments, _) = RequestieApp::default().into_parts();
    assert!(RequestieApp::from_parts(requests.clone(), environments.clone(), PanelSelection::Request(1)).is_none());
    assert!(RequestieApp::from_parts(requests.clone(), environments.clone(), PanelSelection::Environment(1)).is_none());
    assert!(RequestieApp::from_parts(requests.clone(), Vec::new(), PanelSelection::Request(0)).is_none());
    assert!(RequestieApp::from_parts(Vec::new(), environments.clone(), PanelSelection::Request(0)).is_none());
    let d = RequestieApp::from_parts(Vec::new(), environments, PanelSelection::Environment(0)).unwrap();
    assert!(d.requests().is_empty());
    assert_eq!(d.selected(), PanelSelection::Environment(0));
}

#[test]
fn parts_round_trip() {
    let mut d = RequestieApp::default();
    d.add_request();
    d.add_header(1);
    d.set_header(1, 0, "Accept".to_string(), "*/*".to_string());
    let (requests, environments, selected) = d.into_parts();
    let back = RequestieApp::from_parts(requests, environments, selected).unwrap();
    assert_eq!(back.requests().len(), 2);
    assert_eq!(back.requests()[1].headers, vec![header("Accept", "*/*")]);
    assert_eq!(back.selected(), PanelSelection::Request(1));
}

#[test]
fn new_falls_back_on_malformed_stored_document() {
    let (requests, _, _) = RequestieApp::default().into_parts();
    // A document without environments cannot be assembled, so nothing is restored.
    let stored = RequestieApp::from_parts(requests, Vec::new(), PanelSelection::Request(0));
    let d = RequestieApp::new(stored);
    assert_eq!(names_of_environments(&d), vec!["Default".to_string()]);
    assert_eq!(d.requests()[0].name, "Request 1");
}

#[test]
fn add_request_on_default() {
    let mut d = RequestieApp::default();
    d.add_request();
    assert_eq!(d.requests().len(), 2);
    let r: &Request = &d.requests()[1];
    assert_eq!(r.method, HttpMethod::GET);
    assert_eq!(r.url, "");
    assert_eq!(r.body, "");
    assert!(r.headers.is_empty());
    assert_eq!(r.name, "New Request 2");
    assert_eq!(d.selected(), PanelSelection::Request(1));
}

#[test]
fn add_environments_then_remove_first() {
    let mut d = RequestieApp::default();
    d.add_environment();
    d.add_environment();
    assert_eq!(d.environments().len(), 3);
    assert_eq!(
        names_of_environments(&d),
        vec!["Default".to_string(), "New Environment 2".to_string(), "New Environment 3".to_string()]
    );
    assert_eq!(d.selected(), PanelSelection::Environment(2));
    d.remove_environment(0);
    assert_eq!(d.environments().len(), 2);
    assert_eq!(d.selected(), PanelSelection::Environment(0));
    assert_eq!(d.environments()[0].name, "New Environment 2");
}

#[test]
fn last_environment_is_kept() {
    let mut d = RequestieApp::default();
    d.add_environment_value(0);
    d.remove_environment(0);
    assert_eq!(names_of_environments(&d), vec!["Default".to_string()]);
    assert_eq!(d.environments()[0].values.len(), 1);
    assert_eq!(d.selected(), PanelSelection::Request(0));
}

#[test]
fn remove_environment_out_of_range_changes_nothing() {
    let mut d = RequestieApp::default();
    d.add_environment();
    d.remove_environment(5);
    assert_eq!(d.environments().len(), 2);
    assert_eq!(d.selected(), PanelSelection::Environment(1));
}

#[test]
fn remove_middle_header_keeps_order() {
    let mut d = RequestieApp::default();
    d.add_request();
    for k in 0..3 {
        d.add_header(1);
        d.set_header(1, k, format!("h{}", k), format!("v{}", k));
    }
    d.remove_header(1, 1);
    assert_eq!(d.requests()[1].headers, vec![header("h0", "v0"), header("h2", "v2")]);
}

#[test]
fn remove_header_out_of_range_changes_nothing() {
    let mut d = RequestieApp::default();
    d.remove_header(0, 3);
    d.remove_header(4, 0);
    assert_eq!(d.requests()[0].headers, vec![header("Content-Type", "application/json")]);
}

#[test]
fn batch_header_removal() {
    let mut d = RequestieApp::default();
    for k in 1..5 {
        d.add_header(0);
        d.set_header(0, k, format!("h{}", k), String::new());
    }
    d.remove_headers(0, &vec![0, 2, 4]);
    assert_eq!(d.requests()[0].headers, vec![header("h1", ""), header("h3", "")]);
}

#[test]
fn batch_removal_rejects_unordered_or_out_of_range() {
    let mut d = RequestieApp::default();
    d.add_header(0);
    d.remove_headers(0, &vec![1, 0]);
    assert_eq!(d.requests()[0].headers.len(), 2);
    d.remove_headers(0, &vec![0, 0]);
    assert_eq!(d.requests()[0].headers.len(), 2);
    d.remove_headers(0, &vec![2]);
    assert_eq!(d.requests()[0].headers.len(), 2);
    d.remove_headers(0, &vec![]);
    assert_eq!(d.requests()[0].headers.len(), 2);
}

#[test]
fn environment_rows() {
    let mut d = RequestieApp::default();
    d.add_environment_value(0);
    d.add_environment_value(0);
    d.add_environment_value(0);
    assert_eq!(d.environments()[0].values, vec![header("", ""), header("", ""), header("", "")]);
    d.set_environment_value(0, 0, "a".to_string(), "1".to_string());
    d.set_environment_value(0, 1, "b".to_string(), "2".to_string());
    d.set_environment_value(0, 2, "c".to_string(), "3".to_string());
    d.remove_environment_value(0, 0);
    assert_eq!(d.environments()[0].values, vec![header("b", "2"), header("c", "3")]);
    d.remove_environment_values(0, &vec![1]);
    assert_eq!(d.environments()[0].values, vec![header("b", "2")]);
    d.remove_environment_value(1, 0);
    assert_eq!(d.environments()[0].values.len(), 1);
    d.set_environment_name(0, "Staging".to_string());
    assert_eq!(d.environments()[0].name, "Staging");
}

#[test]
fn selection_rejects_out_of_range() {
    let mut d = RequestieApp::default();
    d.select_environment(0);
    assert_eq!(d.selected(), PanelSelection::Environment(0));
    d.select_request(1);
    assert_eq!(d.selected(), PanelSelection::Environment(0));
    d.select_environment(1);
    assert_eq!(d.selected(), PanelSelection::Environment(0));
    d.select_request(0);
    assert_eq!(d.selected(), PanelSelection::Request(0));
}

#[test]
fn selection_stays_valid_through_edits() {
    let mut d = RequestieApp::default();
    d.add_environment();
    d.add_request();
    d.add_environment();
    d.remove_environment(2);
    assert!(d.is_well_formed());
    d.remove_environment(1);
    assert!(d.is_well_formed());
    d.remove_environment(0);
    assert!(d.is_well_formed());
    assert_eq!(d.environments().len(), 1);
    assert_eq!(d.selected(), PanelSelection::Environment(0));
}

#[test]
fn request_fields_are_edited() {
    let mut d = RequestieApp::default();
    d.set_request_name(0, "Users".to_string());
    d.set_request_url(0, "https://api.test/users".to_string());
    d.set_request_method(0, HttpMethod::POST);
    d.set_request_body(0, "{}".to_string());
    d.set_request_name(3, "ignored".to_string());
    let r = &d.requests()[0];
    assert_eq!(r.name, "Users");
    assert_eq!(r.url, "https://api.test/users");
    assert_eq!(r.method, HttpMethod::POST);
    assert_eq!(r.body, "{}");
    assert_eq!(d.requests().len(), 1);
}

#[test]
fn tenth_request_name() {
    let mut d = RequestieApp::default();
    for _ in 0..9 {
        d.add_request();
    }
    assert_eq!(d.requests()[9].name, "New Request 10");
}

#[test]
fn environment_removal_is_allowed_only_beside_another() {
    let mut d = RequestieApp::default();
    assert!(!d.can_remove_environment());
    d.add_environment();
    assert!(d.can_remove_environment());
}
