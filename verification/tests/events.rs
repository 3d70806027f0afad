use std::cell::RefCell;
use std::rc::Rc;

use xwdoc::instrumentable::{InstrumentInfo, NotificationCenter, Subscriber};
use xwdoc::subscriber::{format_path, format_url, ConsoleSubscriber, EventColor, FileSubscriber};

struct Recorder {
    tag: &'static str,
    seen: Rc<RefCell<Vec<String>>>,
}

impl Subscriber for Recorder {
    fn handle_event(&self, info: &InstrumentInfo) {
        self.seen.borrow_mut().push(format!("{}:{}", self.tag, info.name));
    }
}

fn info(name: &str, duration_ms: Option<u64>, payload: &[(&str, &str)]) -> InstrumentInfo {
    InstrumentInfo {
        name: name.to_string(),
        duration_ms,
        payload: payload.iter().map(|(k, v)| (k.to_string(), v.to_string())).collect(),
    }
}

#[test]
fn subscribers_are_told_in_order_then_catch_all() {
    let seen = Rc::new(RefCell::new(Vec::new()));
    let mut center = NotificationCenter::new();
    center.subscribe("*", Recorder { tag: "all", seen: seen.clone() });
    center.subscribe("fetch", Recorder { tag: "one", seen: seen.clone() });
    center.subscribe("fetch", Recorder { tag: "two", seen: seen.clone() });
    assert_eq!(center.subscriber_count("fetch"), 2);
    assert_eq!(center.subscriber_count("*"), 1);
    assert_eq!(center.subscriber_count("other"), 0);

    let told = center.publish(&info("fetch", None, &[]));
    assert_eq!(told, 3);
    assert_eq!(*seen.borrow(), vec!["one:fetch".to_string(), "two:fetch".to_string(), "all:fetch".to_string()]);

    let told = center.publish(&info("other", None, &[]));
    assert_eq!(told, 1);
    assert_eq!(seen.borrow().last().unwrap(), "all:other");
}

#[test]
fn console_lines_by_event() {
    let c = ConsoleSubscriber::new(false, None);
    let (line, color) = c.event_line(&info("response.request", None, &[("url", "https://a.org/x")]), "").unwrap();
    assert_eq!(line, "Request: a.org/x");
    assert_eq!(color, Some(EventColor::Cyan));
    let (line, color) = c.event_line(&info("handle_response.requester", None, &[("url", "http://b.org")]), "").unwrap();
    assert_eq!(line, "Response: b.org");
    assert_eq!(color, Some(EventColor::Green));
    let (line, color) = c.event_line(&info("index.doc", None, &[("before", "abc"), ("after", "abcdef")]), "100.0").unwrap();
    assert_eq!(line, "Index: 3 -> 6 bytes [100.0%]");
    assert_eq!(color, Some(EventColor::Yellow));
    let (line, _) = c.event_line(&info("db.doc", None, &[("before", ""), ("after", "x")]), "inf").unwrap();
    assert_eq!(line, "Database: 0 -> 1 bytes [inf%]");
    let (line, color) = c.event_line(&info("warn.doc", None, &[("msg", "careful")]), "").unwrap();
    assert_eq!(line, "Warning: careful");
    assert_eq!(color, Some(EventColor::Red));
    let (line, color) = c.event_line(&info("custom", Some(42), &[]), "").unwrap();
    assert_eq!(line, "Event: custom [42ms]");
    assert_eq!(color, None);
    assert!(c.event_line(&info("warn.doc", None, &[]), "").is_none());
    assert!(c.event_line(&info("index.doc", None, &[("before", "a")]), "").is_none());
}

#[test]
fn file_lines_and_paths() {
    let f = FileSubscriber::new("log.txt");
    assert_eq!(f.file_path(), "log.txt");
    let line = f.log_line(&info("test_event", Some(5), &[("key", "value"), ("k2", "v2")]), "2024-01-01 00:00:00");
    assert_eq!(line, "[test_event] 2024-01-01 00:00:00 [5ms]: key=value, k2=v2");
    assert_eq!(f.log_line(&info("bare", None, &[]), "t"), "[bare] t");
    assert_eq!(format_url("https://x.org/a?b=http://y"), "x.org/a?b=y");
    assert_eq!(format_path("/home/u/proj/out/a.html", "/home/u/proj"), "/out/a.html");
}
