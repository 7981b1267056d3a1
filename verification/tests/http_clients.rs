use rsrpc::http_client::{failure_message, is_success};
use rsrpc::HttpClient;

#[test]
fn base_url_loses_trailing_slashes() {
    let client = HttpClient::with_client("http://localhost:8080//", 7u8);
    assert_eq!(client.base_url(), "http://localhost:8080");
    assert_eq!(*client.client(), 7);
    let plain = HttpClient::with_client("http://localhost:8080", 7u8);
    assert_eq!(plain.base_url(), client.base_url());
    let default: HttpClient<u8> = HttpClient::new("http://h/");
    assert_eq!(default.base_url(), "http://h");
    assert_eq!(*default.client(), 0);
    assert_eq!(HttpClient::with_client("/", ()).base_url(), "");
}

#[test]
fn clones_are_alike() {
    let client = HttpClient::with_client("http://h/", "sender".to_string());
    let copy = client.clone();
    assert_eq!(copy.base_url(), "http://h");
    assert_eq!(copy.client(), "sender");
}

#[test]
fn requests_are_prepared() {
    let client = HttpClient::with_client("http://h/", ());
    let request = client.request("GET", "/users/1", vec![], None::<u8>);
    assert_eq!(request.method, "GET");
    assert_eq!(request.url, "http://h/users/1");
    assert!(request.query.is_none());
    assert!(request.body.is_none());
    let pairs = vec![("limit".to_string(), "5".to_string())];
    let request = client.request("POST", "", pairs.clone(), Some(3u8));
    assert_eq!(request.url, "http://h");
    assert_eq!(request.query, Some(pairs));
    assert_eq!(request.body, Some(3));
}

#[test]
fn statuses_are_judged() {
    assert!(!is_success(199));
    assert!(is_success(200));
    assert!(is_success(299));
    assert!(!is_success(300));
    assert!(!is_success(404));
    for code in 100..=999u16 {
        let status = http::StatusCode::from_u16(code).unwrap();
        assert_eq!(is_success(code), status.is_success());
        assert_eq!(
            failure_message(code, Some("body".to_string())),
            format!("HTTP {} {}: body", status.as_u16(), status.as_str())
        );
    }
    assert_eq!(
        failure_message(404, Some("not here".to_string())),
        "HTTP 404 404: not here"
    );
    assert_eq!(failure_message(500, None), "HTTP 500 500: ");
}
