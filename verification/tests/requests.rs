use xwdoc::request::{Request, RequestOptions};
use xwdoc::requester::{get_next_url, mark_processed, Requester};

#[test]
fn test_create_request() {
    let request = Request::new("https://example.com", None).unwrap();
    assert_eq!(request.get_url().to_string(), "https://example.com/");
    assert_eq!(request.get_options().follow_redirects, true);
}

#[test]
fn test_custom_options() {
    let mut options = RequestOptions::default();
    options.follow_redirects = false;
    options.set_header("X-Test", "value");

    let request = Request::new("https://example.com", Some(options)).unwrap();
    assert_eq!(request.get_options().follow_redirects, false);
    assert_eq!(request.get_options().get_header("X-Test"), Some(&"value".to_string()));
}

#[test]
fn request_defaults_and_bad_url() {
    let options = RequestOptions::default();
    assert_eq!(options.get_header("User-Agent"), Some(&"DevDocs Rust".to_string()));
    assert_eq!(options.connect_timeout, 15);
    assert_eq!(options.timeout, None);
    assert!(Request::new("not a url", None).is_err());
}

#[test]
fn test_requester_callbacks() {}

#[test]
fn requester_queue() {
    let mut requester: Requester<u8> = Requester::new(None, None);
    assert_eq!(requester.max_concurrency(), 20);
    assert_eq!(requester.on_response_count(), 0);
    requester.on_response(1);
    requester.on_response(2);
    assert_eq!(requester.on_response_count(), 2);

    let mut queue = vec!["https://A.org/x".to_string(), "https://b.org/".to_string(), "https://c.org/".to_string()];
    let mut processed: Vec<String> = Vec::new();
    mark_processed(&mut processed, "https://a.org/X");
    assert_eq!(get_next_url(&mut queue, &processed), Some("https://b.org/".to_string()));
    assert_eq!(queue.len(), 2);

    let small: Requester<u8> = Requester::new(Some(1), None);
    let batch = small.next_batch(&mut queue, &processed);
    assert_eq!(batch, vec!["https://c.org/".to_string()]);
    assert_eq!(queue, vec!["https://A.org/x".to_string()]);
    assert_eq!(Requester::<u8>::get_next_url_for_test(&mut queue, &processed), None);
}

#[test]
fn next_batch_takes_first_unprocessed_in_queue_order() {
    let mut queue = vec!["https://a.org/".to_string(), "https://B.org/".to_string(),
        "https://c.org/".to_string(), "https://d.org/".to_string()];
    let mut processed: Vec<String> = Vec::new();
    mark_processed(&mut processed, "https://b.org/");
    let two: Requester<u8> = Requester::new(Some(2), None);
    let batch = two.next_batch(&mut queue, &processed);
    assert_eq!(batch, vec!["https://a.org/".to_string(), "https://c.org/".to_string()]);
    assert_eq!(queue, vec!["https://B.org/".to_string(), "https://d.org/".to_string()]);
    let rest = two.next_batch(&mut queue, &processed);
    assert_eq!(rest, vec!["https://d.org/".to_string()]);
    assert_eq!(queue, vec!["https://B.org/".to_string()]);
}
