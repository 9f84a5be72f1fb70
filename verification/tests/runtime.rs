use steit::entry::{decode_entry, decode_stream, Entry, EntryKind};
use steit::error::LogIoError;
use steit::logger::Logger;
use steit::path::Path;
use steit::runtime::Runtime;
use steit::wire::Value;

fn varint_of(kind: &EntryKind) -> Option<(u16, u64)> {
    match kind {
        EntryKind::Update { tag, value: Value::Varint(v) } => Some((*tag, *v)),
        _ => None,
    }
}

#[test]
fn new_runtime_stands_at_the_root() {
    let runtime = Runtime::new();
    assert!(runtime.path().is_root());
    assert!(*runtime.path() == Path::root());
}

#[test]
fn nested_twice_gives_the_path_of_two_children() {
    let runtime = Runtime::new().nested(5).nested(2);
    assert!(*runtime.path() == Path::root().child(5).child(2));
    assert_eq!(runtime.path().tags(), &vec![5u16, 2u16]);
}

#[test]
fn parent_undoes_nested() {
    let runtime = Runtime::new().nested(5).nested(2);
    assert!(*runtime.parent().path() == Path::root().child(5));
    assert!(runtime.parent().parent().path().is_root());
}

#[test]
fn parent_of_the_root_is_the_root() {
    let runtime = Runtime::new();
    assert!(runtime.parent().path().is_root());
    assert!(runtime.parent() == runtime);
}

#[test]
fn runtimes_compare_by_path_and_not_by_logger() {
    let one = Runtime::new().nested(1);
    let other = Runtime::new().nested(1);
    assert!(one == other);
    assert!(one != other.nested(4));
    assert!(one != Runtime::new());
}

#[test]
fn update_at_the_root_is_logged_with_header_and_varint() {
    let runtime = Runtime::new();
    assert_eq!(runtime.log_update(3u16, &42u32), Ok(()));
    let entries = runtime.logger().entries();
    assert_eq!(entries.len(), 1);
    assert!(entries[0].path.is_root());
    assert_eq!(varint_of(&entries[0].kind), Some((3, 42)));
    // no tags, the kind of an update, the header of tag 3 as a varint, 42
    assert_eq!(runtime.logger().bytes(), vec![0u8, 0, 0x18, 0x2a]);
    assert_eq!(runtime.update_entry(3u16, &42u32).encode(), vec![0u8, 0, 0x18, 0x2a]);
}

#[test]
fn remove_is_logged_without_a_trace_of_the_type() {
    let runtime = Runtime::new().nested(1).nested(2);
    assert_eq!(runtime.log_remove::<u8>(7), Ok(()));
    assert_eq!(runtime.log_remove::<i64>(7), Ok(()));
    assert_eq!(runtime.log_remove::<Value>(7), Ok(()));
    let entries = runtime.logger().entries();
    assert_eq!(entries.len(), 3);
    for entry in &entries {
        assert_eq!(entry.path.tags(), &vec![1u16, 2u16]);
        assert!(matches!(entry.kind, EntryKind::Remove { tag: 7 }));
    }
    assert_eq!(entries[0].encode(), entries[1].encode());
    assert_eq!(entries[0].encode(), entries[2].encode());
    assert_eq!(entries[0].encode(), vec![2u8, 1, 2, 2, 7]);
}

#[test]
fn add_is_logged_with_the_wire_type_of_the_item() {
    let runtime = Runtime::new().nested(9);
    assert_eq!(runtime.log_add(&300u16), Ok(()));
    assert_eq!(runtime.log_add(&Value::Sized(vec![1, 2, 3])), Ok(()));
    let entries = runtime.logger().entries();
    assert_eq!(entries.len(), 2);
    assert!(matches!(entries[0].kind, EntryKind::Add { item: Value::Varint(300) }));
    match &entries[1].kind {
        EntryKind::Add { item: Value::Sized(bytes) } => assert_eq!(bytes, &vec![1u8, 2, 3]),
        _ => panic!("an addition of a sized item"),
    }
    assert_eq!(entries[0].encode(), vec![1u8, 9, 1, 0, 0xac, 0x02]);
    assert_eq!(entries[1].encode(), vec![1u8, 9, 1, 2, 3, 1, 2, 3]);
}

#[test]
fn entries_are_persisted_in_the_order_of_the_calls() {
    let root = Runtime::new();
    let child = root.nested(4);
    assert_eq!(root.log_update(1, &10u8), Ok(()));
    assert_eq!(child.log_add(&20u8), Ok(()));
    assert_eq!(root.log_remove::<u8>(3), Ok(()));
    let entries = root.logger().entries();
    assert_eq!(entries.len(), 3);
    assert!(matches!(entries[0].kind, EntryKind::Update { tag: 1, value: Value::Varint(10) }));
    assert!(entries[0].path.is_root());
    assert!(matches!(entries[1].kind, EntryKind::Add { item: Value::Varint(20) }));
    assert_eq!(entries[1].path.tags(), &vec![4u16]);
    assert!(matches!(entries[2].kind, EntryKind::Remove { tag: 3 }));
    let mut expected = root.update_entry(1, &10u8).encode();
    expected.extend(child.add_entry(&20u8).encode());
    expected.extend(root.remove_entry(3).encode());
    assert_eq!(root.logger().bytes(), expected);
}

#[test]
fn nested_runtimes_share_the_logger_of_the_tree() {
    let root = Runtime::new();
    let leaf = root.nested(1).nested(2).nested(3);
    assert_eq!(leaf.log_update(8, &true), Ok(()));
    assert_eq!(leaf.parent().log_update(9, &false), Ok(()));
    assert_eq!(root.logger().entries().len(), 2);
    assert_eq!(leaf.logger().entries().len(), 2);
}

#[test]
fn two_trees_do_not_share_a_logger() {
    let one = Runtime::new();
    let other = Runtime::new();
    assert_eq!(one.log_update(1, &1u8), Ok(()));
    assert_eq!(one.logger().entries().len(), 1);
    assert_eq!(other.logger().entries().len(), 0);
    assert!(other.logger().bytes().is_empty());
}

#[test]
fn a_full_sink_fails_the_call_and_keeps_what_it_had() {
    let runtime = Runtime::with_logger(Logger::with_limit(6));
    assert_eq!(runtime.log_update(3, &42u32), Ok(()));
    assert_eq!(runtime.log_update(3, &43u32), Err(LogIoError::SinkFull));
    assert_eq!(runtime.logger().bytes(), vec![0u8, 0, 0x18, 0x2a]);
    assert_eq!(runtime.log_remove::<u8>(1), Err(LogIoError::SinkFull));
    assert_eq!(runtime.logger().entries().len(), 1);
}

#[test]
fn an_entry_longer_than_the_limit_is_always_refused() {
    let runtime = Runtime::with_logger(Logger::with_limit(3));
    assert_eq!(runtime.log_update(3, &42u32), Err(LogIoError::SinkFull));
    assert!(runtime.logger().bytes().is_empty());
}

#[test]
fn decoding_the_log_gives_back_every_entry() {
    let runtime = Runtime::new().nested(4464).nested(65535);
    assert_eq!(runtime.log_update(65535, &u64::MAX), Ok(()));
    assert_eq!(runtime.log_add(&-1i32), Ok(()));
    let bytes = runtime.logger().bytes();
    let entries = decode_stream(&bytes).unwrap();
    assert_eq!(entries.len(), 2);
    assert_eq!(entries[0].path.tags(), &vec![4464u16, 65535u16]);
    assert_eq!(varint_of(&entries[0].kind), Some((65535, u64::MAX)));
    assert!(matches!(entries[1].kind, EntryKind::Add { item: Value::Varint(1) }));
    let (first, taken) = decode_entry(&bytes).unwrap();
    assert_eq!(first.encode(), bytes[..taken].to_vec());
    let again = Entry::new(&first.path, first.kind.clone());
    assert_eq!(again.encode(), first.encode());
}

#[test]
fn a_field_is_replaced_once_the_change_is_logged() {
    let runtime = Runtime::new().nested(2);
    let mut field = 1u32;
    assert_eq!(runtime.replace_field(&mut field, 3, 42), Ok(()));
    assert_eq!(field, 42);
    let entries = runtime.logger().entries();
    assert_eq!(entries.len(), 1);
    assert!(entries[0] == runtime.update_entry(3, &42u32));
}

#[test]
fn a_field_keeps_its_value_when_logging_fails() {
    let runtime = Runtime::with_logger(Logger::with_limit(4));
    let mut field = 1u32;
    assert_eq!(runtime.replace_field(&mut field, 3, 42), Ok(()));
    assert_eq!(field, 42);
    assert_eq!(runtime.replace_field(&mut field, 3, 43), Err(LogIoError::SinkFull));
    assert_eq!(field, 42);
    assert_eq!(runtime.logger().entries().len(), 1);
}
