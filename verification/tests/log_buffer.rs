use mxu::log_buffer::{InstanceLog, LogBuffer, LogEntryDto, DEFAULT_MAX_LOGS, MIN_MAX_LOGS};

fn entry(id: &str) -> LogEntryDto {
    LogEntryDto {
        id: id.to_string(),
        log_type: "info".to_string(),
        message: format!("message {id}"),
        html: None,
        timestamp: "12:00:00".to_string(),
    }
}

fn ids_of(buffer: &LogBuffer, instance: &str) -> Option<Vec<String>> {
    buffer
        .get_all()
        .iter()
        .find(|log: &&InstanceLog| log.instance_id == instance)
        .map(|log| log.entries.iter().map(|e| e.id.clone()).collect())
}

#[test]
fn new_buffer_is_empty() {
    let buffer = LogBuffer::default();
    assert!(buffer.get_all().is_empty());
    assert_eq!(DEFAULT_MAX_LOGS, 2000);
    assert_eq!(MIN_MAX_LOGS, 100);
}

#[test]
fn push_creates_instance_and_keeps_order() {
    let mut buffer = LogBuffer::default();
    buffer.push("a", entry("1"));
    buffer.push("a", entry("2"));
    buffer.push("b", entry("3"));
    assert_eq!(ids_of(&buffer, "a"), Some(vec!["1".to_string(), "2".to_string()]));
    assert_eq!(ids_of(&buffer, "b"), Some(vec!["3".to_string()]));
    assert_eq!(buffer.get_all().len(), 2);
}

#[test]
fn push_keeps_all_fields_of_entry() {
    let mut buffer = LogBuffer::default();
    let mut e = entry("x");
    e.html = Some("<b>x</b>".to_string());
    buffer.push("inst", e);
    let log = &buffer.get_all()[0];
    assert_eq!(log.instance_id, "inst");
    let stored = &log.entries[0];
    assert_eq!(stored.id, "x");
    assert_eq!(stored.log_type, "info");
    assert_eq!(stored.message, "message x");
    assert_eq!(stored.html.as_deref(), Some("<b>x</b>"));
    assert_eq!(stored.timestamp, "12:00:00");
}

#[test]
fn default_bound_keeps_latest_two_thousand() {
    let mut buffer = LogBuffer::default();
    for i in 0..2005 {
        buffer.push("a", entry(&i.to_string()));
    }
    let ids = ids_of(&buffer, "a").unwrap();
    assert_eq!(ids.len(), 2000);
    assert_eq!(ids[0], "5");
    assert_eq!(ids[1999], "2004");
}

#[test]
fn set_max_below_floor_uses_one_hundred() {
    let mut buffer = LogBuffer::default();
    buffer.set_max(3);
    for i in 0..150 {
        buffer.push("a", entry(&i.to_string()));
    }
    let ids = ids_of(&buffer, "a").unwrap();
    assert_eq!(ids.len(), 100);
    assert_eq!(ids[0], "50");
    assert_eq!(ids[99], "149");
}

#[test]
fn set_max_above_floor_is_taken() {
    let mut buffer = LogBuffer::default();
    buffer.set_max(120);
    for i in 0..130 {
        buffer.push("a", entry(&i.to_string()));
    }
    let ids = ids_of(&buffer, "a").unwrap();
    assert_eq!(ids.len(), 120);
    assert_eq!(ids[0], "10");
}

#[test]
fn lowering_the_bound_trims_on_next_push_only() {
    let mut buffer = LogBuffer::default();
    for i in 0..300 {
        buffer.push("a", entry(&i.to_string()));
    }
    buffer.push("b", entry("b0"));
    buffer.set_max(100);
    assert_eq!(ids_of(&buffer, "a").unwrap().len(), 300);
    buffer.push("a", entry("300"));
    let ids = ids_of(&buffer, "a").unwrap();
    assert_eq!(ids.len(), 100);
    assert_eq!(ids[0], "201");
    assert_eq!(ids[99], "300");
    assert_eq!(ids_of(&buffer, "b"), Some(vec!["b0".to_string()]));
}

#[test]
fn push_leaves_other_instances() {
    let mut buffer = LogBuffer::default();
    buffer.push("a", entry("1"));
    buffer.push("b", entry("2"));
    buffer.push("a", entry("3"));
    assert_eq!(ids_of(&buffer, "b"), Some(vec!["2".to_string()]));
}

#[test]
fn clear_instance_empties_only_that_instance() {
    let mut buffer = LogBuffer::default();
    buffer.push("a", entry("1"));
    buffer.push("b", entry("2"));
    buffer.clear_instance("a");
    assert_eq!(ids_of(&buffer, "a"), Some(vec![]));
    assert_eq!(ids_of(&buffer, "b"), Some(vec!["2".to_string()]));
    buffer.clear_instance("a");
    assert_eq!(ids_of(&buffer, "a"), Some(vec![]));
}

#[test]
fn clear_unknown_instance_creates_nothing() {
    let mut buffer = LogBuffer::default();
    buffer.push("a", entry("1"));
    buffer.clear_instance("zzz");
    assert_eq!(ids_of(&buffer, "zzz"), None);
    assert_eq!(buffer.get_all().len(), 1);
}

#[test]
fn push_after_clear_holds_only_new_entry() {
    let mut buffer = LogBuffer::default();
    buffer.push("a", entry("1"));
    buffer.push("a", entry("2"));
    buffer.clear_instance("a");
    buffer.push("a", entry("3"));
    assert_eq!(ids_of(&buffer, "a"), Some(vec!["3".to_string()]));
}
