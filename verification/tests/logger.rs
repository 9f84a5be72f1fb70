use steit::entry::{Entry, EntryKind};
use steit::error::LogIoError;
use steit::logger::{Logger, Sink};
use steit::path::Path;
use steit::wire::Value;

fn update(tag: u16, value: u64) -> Entry {
    Entry::new(&Path::root(), EntryKind::Update { tag, value: Value::Varint(value) })
}

#[test]
fn a_new_sink_is_empty() {
    let sink = Sink::new(Some(100));
    assert_eq!(sink.len(), 0);
    assert!(sink.to_bytes().is_empty());
    assert!(sink.to_entries().is_empty());
}

#[test]
fn a_sink_keeps_entries_in_the_order_of_the_appends() {
    let mut sink = Sink::new(None);
    let entries = vec![update(1, 10), update(2, 20), update(3, 30)];
    for entry in &entries {
        assert_eq!(sink.append(entry), Ok(()));
    }
    assert_eq!(sink.to_entries(), entries);
    let mut expected = entries[0].encode();
    expected.extend(entries[1].encode());
    expected.extend(entries[2].encode());
    assert_eq!(sink.to_bytes(), expected);
    assert_eq!(sink.len(), 12);
}

#[test]
fn a_sink_takes_an_entry_whole_or_not_at_all() {
    let mut sink = Sink::new(Some(7));
    assert_eq!(sink.append(&update(1, 10)), Ok(()));
    assert_eq!(sink.append(&update(2, 20)), Err(LogIoError::SinkFull));
    assert_eq!(sink.len(), 4);
    assert_eq!(sink.to_entries(), vec![update(1, 10)]);
    // three bytes are left: too few for any entry at all of four bytes
    assert_eq!(sink.append(&update(3, 1)), Err(LogIoError::SinkFull));
    assert_eq!(sink.to_bytes(), update(1, 10).encode());
}

#[test]
fn a_sink_can_be_filled_to_its_limit() {
    let mut sink = Sink::new(Some(8));
    assert_eq!(sink.append(&update(1, 10)), Ok(()));
    assert_eq!(sink.append(&update(2, 20)), Ok(()));
    assert_eq!(sink.len(), 8);
    assert_eq!(sink.append(&update(3, 30)), Err(LogIoError::SinkFull));
    let mut none = Sink::new(Some(0));
    assert_eq!(none.append(&update(1, 10)), Err(LogIoError::SinkFull));
}

#[test]
fn a_logger_writes_to_its_sink() {
    let logger = Logger::new();
    assert_eq!(logger.log_entry(update(1, 10)), Ok(()));
    assert_eq!(logger.log_entry(update(2, 20)), Ok(()));
    assert_eq!(logger.entries(), vec![update(1, 10), update(2, 20)]);
    assert_eq!(logger.bytes(), vec![0u8, 0, 0x08, 10, 0, 0, 0x10, 20]);
}

#[test]
fn shared_loggers_write_to_one_sink() {
    let logger = Logger::new();
    let shared = logger.share();
    let again = shared.share();
    assert_eq!(logger.log_entry(update(1, 10)), Ok(()));
    assert_eq!(shared.log_entry(update(2, 20)), Ok(()));
    assert_eq!(again.log_entry(update(3, 30)), Ok(()));
    let expected = vec![update(1, 10), update(2, 20), update(3, 30)];
    assert_eq!(logger.entries(), expected);
    assert_eq!(shared.entries(), expected);
    assert_eq!(again.entries(), expected);
}

#[test]
fn new_loggers_have_sinks_of_their_own() {
    let one = Logger::new();
    let other = Logger::new();
    assert_eq!(one.log_entry(update(1, 10)), Ok(()));
    assert!(other.entries().is_empty());
    assert_eq!(one.entries().len(), 1);
}

#[test]
fn a_logger_with_a_limit_refuses_what_does_not_fit() {
    let logger = Logger::with_limit(5);
    assert_eq!(logger.log_entry(update(1, 300)), Ok(()));
    assert_eq!(logger.log_entry(update(1, 1)), Err(LogIoError::SinkFull));
    assert_eq!(logger.share().log_entry(update(1, 1)), Err(LogIoError::SinkFull));
    assert_eq!(logger.entries(), vec![update(1, 300)]);
    let small = Logger::with_limit(3);
    assert_eq!(small.log_entry(update(1, 1)), Err(LogIoError::SinkFull));
    assert!(small.bytes().is_empty());
}
