use sensor_telemetry::generics::{min, Queue, RequestBuilder};

#[test]
fn test_queue() {
    let mut queue = Queue::new();
    queue.enqueue(1);
    queue.enqueue(2);
    queue.enqueue(3);

    assert_eq!(queue.dequeue(), Some(1));
    assert_eq!(queue.dequeue(), Some(2));
    assert_eq!(queue.dequeue(), Some(3));
    assert_eq!(queue.dequeue(), None);
}

#[test]
fn test_min() {
    assert_eq!(min(5, 3), 3);
    assert_eq!(min("apple", "banana"), "apple");
    assert_eq!(min(3.14, 2.71), 2.71);
}

#[test]
fn test_builder() {
    let request = RequestBuilder::new("https://api.example.com".to_string())
        .add_header("Content-Type".to_string(), "application/json".to_string())
        .add_header("Authorization".to_string(), "Bearer token".to_string())
        .send();

    assert_eq!(request.url, "https://api.example.com");
    assert_eq!(request.headers.len(), 2);
}

#[test]
fn queue_length() {
    let mut queue: Queue<&str> = Queue::new();
    assert!(queue.is_empty());
    assert_eq!(queue.len(), 0);
    queue.enqueue("a");
    queue.enqueue("b");
    assert!(!queue.is_empty());
    assert_eq!(queue.len(), 2);
    assert_eq!(queue.dequeue(), Some("a"));
    assert_eq!(queue.len(), 1);
}

#[test]
fn min_takes_the_second_of_equals() {
    assert_eq!(min((1, "first"), (1, "first")), (1, "first"));
    assert_eq!(min(2, 2), 2);
    assert_eq!(min(-1, 1), -1);
    // Values that cannot be compared: the second comes back.
    assert!(min(1.0, f64::NAN).is_nan());
    assert_eq!(min(f64::NAN, 1.0), 1.0);
}

#[test]
fn request_report() {
    let request = RequestBuilder::new("https://api.example.com".to_string())
        .add_header("A".to_string(), "1".to_string())
        .send();
    assert_eq!(request.headers, vec![("A".to_string(), "1".to_string())]);
    assert_eq!(request.execute(), "Sent request to https://api.example.com with 1 headers");
}
