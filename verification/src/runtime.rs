//! The handle through which a node of a state tree reports its own
//! mutations and makes the handles of its children.

use crate::entry::{Entry, EntryKind, EntryKindView, EntryView};
use crate::error::LogIoError;
use crate::logger::{fits, Logger};
use crate::path::{child_of, parent_of, Path};
use crate::serialize::Serialize;
use vstd::prelude::*;
use vstd::std_specs::cmp::PartialEqSpecImpl;

verus! {

/// A node's address together with the logger of the tree that the node
/// belongs to.
pub struct Runtime {
    logger: Logger,
    path: Path,
}

impl View for Runtime {
    type V = Seq<u16>;

    /// A runtime is seen as the address that it stands at.
    closed spec fn view(&self) -> Seq<u16> {
        self.path@
    }
}

/// The entry that a node at `path` writes when its field `tag` is replaced
/// by `value`.
pub open spec fn update_at<T: Serialize>(path: Seq<u16>, tag: u16, value: &T) -> EntryView {
    EntryView { path, kind: EntryKindView::Update { tag, value: value.wire() } }
}

/// The entry that a list at `path` writes when `item` is appended to it.
pub open spec fn add_at<T: Serialize>(path: Seq<u16>, item: &T) -> EntryView {
    EntryView { path, kind: EntryKindView::Add { item: item.wire() } }
}

/// The entry that a node at `path` writes when what `tag` keys is removed.
pub open spec fn remove_at(path: Seq<u16>, tag: u16) -> EntryView {
    EntryView { path, kind: EntryKindView::Remove { tag } }
}

impl Runtime {
    /// The logger of the tree.
    pub closed spec fn spec_logger(&self) -> Logger {
        self.logger
    }

    /// A runtime at the root, with a logger of its own.
    pub fn new() -> (runtime: Runtime)
        ensures
            runtime@ == Seq::<u16>::empty(),
            runtime.spec_logger().limit() is None,
    {
        Runtime { logger: Logger::new(), path: Path::root() }
    }

    /// A runtime at the root that writes to `logger`.
    pub fn with_logger(logger: Logger) -> (runtime: Runtime)
        ensures
            runtime@ == Seq::<u16>::empty(),
            runtime.spec_logger() == logger,
    {
        Runtime { logger, path: Path::root() }
    }

    /// The runtime of the child at the field `tag`: one step further down,
    /// with the same logger.
    pub fn nested(&self, tag: u16) -> (runtime: Runtime)
        ensures
            runtime@ == child_of(self@, tag),
            runtime.spec_logger() == self.spec_logger(),
    {
        Runtime { logger: self.logger.share(), path: self.path.child(tag) }
    }

    /// The runtime of the parent: one step up, with the same logger. The
    /// parent of the root is the root.
    pub fn parent(&self) -> (runtime: Runtime)
        ensures
            runtime@ == parent_of(self@),
            runtime.spec_logger() == self.spec_logger(),
    {
        Runtime { logger: self.logger.share(), path: self.path.parent() }
    }

    /// The address of the node.
    pub fn path(&self) -> (path: &Path)
        ensures
            path@ == self@,
    {
        &self.path
    }

    /// The logger of the tree.
    pub fn logger(&self) -> (logger: &Logger)
        ensures
            *logger == self.spec_logger(),
    {
        &self.logger
    }

    /// The entry that `log_update` writes.
    pub fn update_entry<T: Serialize>(&self, tag: u16, value: &T) -> (entry: Entry)
        ensures
            entry@ == update_at(self@, tag, value),
    {
        Entry::new(&self.path, EntryKind::Update { tag, value: value.to_value() })
    }

    /// The entry that `log_add` writes.
    pub fn add_entry<T: Serialize>(&self, item: &T) -> (entry: Entry)
        ensures
            entry@ == add_at(self@, item),
    {
        Entry::new(&self.path, EntryKind::Add { item: item.to_value() })
    }

    /// The entry that `log_remove` writes.
    pub fn remove_entry(&self, tag: u16) -> (entry: Entry)
        ensures
            entry@ == remove_at(self@, tag),
    {
        Entry::new(&self.path, EntryKind::Remove { tag })
    }

    /// Reports that the field `tag` of this node was replaced by `value`.
    /// The entry is written whole or the call fails. A sink without a
    /// limit takes every entry; a sink with a limit refuses an entry for
    /// which it has no room, and an entry that is longer than the limit
    /// whatever the sink holds.
    pub fn log_update<T: Serialize>(&self, tag: u16, value: &T) -> (r: Result<(), LogIoError>)
        ensures
            self.spec_logger().limit() is None ==> r is Ok,
            r is Ok ==> fits(
                self.spec_logger().limit(),
                0,
                update_at(self@, tag, value).bytes().len(),
            ),
            r is Err ==> r == Err::<(), LogIoError>(LogIoError::SinkFull),
    {
        self.logger.log_entry(self.update_entry(tag, value))
    }

    /// Reports that `item` was appended to the list that this node is.
    pub fn log_add<T: Serialize>(&self, item: &T) -> (r: Result<(), LogIoError>)
        ensures
            self.spec_logger().limit() is None ==> r is Ok,
            r is Ok ==> fits(self.spec_logger().limit(), 0, add_at(self@, item).bytes().len()),
            r is Err ==> r == Err::<(), LogIoError>(LogIoError::SinkFull),
    {
        self.logger.log_entry(self.add_entry(item))
    }

    /// Reports that what `tag` keys in this node was removed. The type of
    /// what was removed is named by the caller and leaves no trace in the
    /// entry.
    pub fn log_remove<T: Serialize>(&self, tag: u16) -> (r: Result<(), LogIoError>)
        ensures
            self.spec_logger().limit() is None ==> r is Ok,
            r is Ok ==> fits(self.spec_logger().limit(), 0, remove_at(self@, tag).bytes().len()),
            r is Err ==> r == Err::<(), LogIoError>(LogIoError::SinkFull),
    {
        self.logger.log_entry(self.remove_entry(tag))
    }

    /// Replaces the field `tag` of this node, which is kept in `slot`, by
    /// `value`. The change is logged first and the field is written only
    /// once the log has taken the entry: if logging fails, the call fails
    /// and the field keeps what it had.
    pub fn replace_field<T: Serialize>(&self, slot: &mut T, tag: u16, value: T) -> (r: Result<
        (),
        LogIoError,
    >)
        ensures
            self.spec_logger().limit() is None ==> r is Ok,
            r is Ok ==> *final(slot) == value,
            r is Ok ==> fits(
                self.spec_logger().limit(),
                0,
                update_at(self@, tag, &value).bytes().len(),
            ),
            r is Err ==> *final(slot) == *old(slot),
            r is Err ==> r == Err::<(), LogIoError>(LogIoError::SinkFull),
    {
        match self.log_update(tag, &value) {
            Ok(()) => {
                *slot = value;
                Ok(())
            },
            Err(e) => Err(e),
        }
    }
}

impl PartialEq for Runtime {
    /// Two runtimes are equal when they stand at the same address, whatever
    /// their loggers.
    fn eq(&self, other: &Runtime) -> (equal: bool) {
        self.path == other.path
    }
}

impl PartialEqSpecImpl for Runtime {
    open spec fn obeys_eq_spec() -> bool {
        true
    }

    open spec fn eq_spec(&self, other: &Runtime) -> bool {
        self@ == other@
    }
}

} // verus!
