//! The sink of the change log, and the handle through which every node of
//! one state tree writes to it.

use crate::entry::{
    decode_stream, entry_views, lemma_stream_bytes_push, lemma_stream_roundtrip, stream_bytes,
    Entry, EntryView,
};
use crate::error::LogIoError;
use crate::wire::append_bytes;
use std::sync::Arc;
use vstd::prelude::*;
use vstd::rwlock::RwLock;
use vstd::rwlock::RwLockPredicate;

verus! {

/// An append-only log in memory: whole entries, one after the other, up to
/// a limit of bytes if the sink was made with one.
pub struct Sink {
    bytes: Vec<u8>,
    limit: Option<usize>,
    entries: Ghost<Seq<EntryView>>,
}

/// Whether `len` more bytes fit a sink that holds `held` bytes and was
/// made with `limit`.
pub open spec fn fits(limit: Option<usize>, held: nat, len: nat) -> bool {
    match limit {
        None => true,
        Some(limit) => held + len <= limit,
    }
}

impl Sink {
    /// The entries that were written, the oldest first.
    pub closed spec fn entries(&self) -> Seq<EntryView> {
        self.entries@
    }

    /// The bytes that the sink holds.
    pub closed spec fn bytes(&self) -> Seq<u8> {
        self.bytes@
    }

    /// The number of bytes that the sink was made to hold at most, if it
    /// was made with a limit.
    pub closed spec fn limit(&self) -> Option<usize> {
        self.limit
    }

    /// The sink holds the bytes of its entries and nothing else, and is
    /// within its limit.
    pub closed spec fn wf(&self) -> bool {
        &&& self.bytes@ == stream_bytes(self.entries@)
        &&& fits(self.limit, self.bytes@.len(), 0)
        &&& forall|i: int| 0 <= i < self.entries@.len() ==> (#[trigger] self.entries@[i]).wf()
    }

    /// An empty sink that takes up to `limit` bytes, or any number of
    /// bytes if it is made without a limit.
    pub fn new(limit: Option<usize>) -> (sink: Sink)
        ensures
            sink.wf(),
            sink.entries() == Seq::<EntryView>::empty(),
            sink.bytes() == Seq::<u8>::empty(),
            sink.limit() == limit,
    {
        Sink { bytes: Vec::new(), limit, entries: Ghost(Seq::empty()) }
    }

    /// Writes `entry` behind everything that was written before, whole or
    /// not at all: if the entry does not fit the room that is left, the
    /// sink stays as it was.
    pub fn append(&mut self, entry: &Entry) -> (r: Result<(), LogIoError>)
        requires
            old(self).wf(),
        ensures
            final(self).wf(),
            final(self).limit() == old(self).limit(),
            r is Ok <==> fits(old(self).limit(), old(self).bytes().len(), entry@.bytes().len()),
            r is Err ==> r == Err::<(), LogIoError>(LogIoError::SinkFull),
            r is Ok ==> final(self).entries() == old(self).entries().push(entry@),
            r is Ok ==> final(self).bytes() == old(self).bytes() + entry@.bytes(),
            r is Err ==> final(self).entries() == old(self).entries(),
            r is Err ==> final(self).bytes() == old(self).bytes(),
    {
        let encoded = entry.encode();
        match self.limit {
            Some(limit) => {
                if encoded.len() > limit - self.bytes.len() {
                    return Err(LogIoError::SinkFull);
                }
            },
            None => {},
        }
        proof {
            entry.lemma_wf();
            lemma_stream_bytes_push(self.entries@, entry@);
        }
        append_bytes(&mut self.bytes, encoded.as_slice());
        self.entries = Ghost(self.entries@.push(entry@));
        Ok(())
    }

    /// The number of bytes that the sink holds.
    pub fn len(&self) -> (n: usize)
        ensures
            n == self.bytes().len(),
    {
        self.bytes.len()
    }

    /// A copy of the bytes that the sink holds.
    pub fn to_bytes(&self) -> (bytes: Vec<u8>)
        ensures
            bytes@ == self.bytes(),
    {
        self.bytes.clone()
    }

    /// The entries that were written, read back from the bytes, the oldest
    /// first.
    pub fn to_entries(&self) -> (entries: Vec<Entry>)
        requires
            self.wf(),
        ensures
            entry_views(entries@) == self.entries(),
    {
        proof {
            lemma_stream_roundtrip(self.entries@);
        }
        match decode_stream(self.bytes.as_slice()) {
            Ok(entries) => entries,
            // The sink holds whole entries, so reading them back cannot fail.
            Err(_) => Vec::new(),
        }
    }
}

/// What the lock of a logger keeps true of the sink that it guards.
pub struct SinkInv {
    pub limit: Option<usize>,
}

impl RwLockPredicate<Sink> for SinkInv {
    open spec fn inv(self, sink: Sink) -> bool {
        sink.wf() && sink.limit() == self.limit
    }
}

/// A handle to the sink of one state tree. Handles that were shared write
/// to one sink; the lock lets one writer in at a time, so that entries
/// never mix.
pub struct Logger {
    sink: Arc<RwLock<Sink, SinkInv>>,
}

/// `Arc::clone`: a second pointer to the same allocation.
#[verifier::external_body]
fn share_sink(sink: &Arc<RwLock<Sink, SinkInv>>) -> (shared: Arc<RwLock<Sink, SinkInv>>)
    ensures
        shared == *sink,
{
    Arc::clone(sink)
}

impl Logger {
    /// The number of bytes that the sink of this logger takes at most, if
    /// it was made with a limit.
    pub closed spec fn limit(&self) -> Option<usize> {
        self.sink.pred().limit
    }

    /// A logger with a sink of its own, which no other logger writes to and
    /// which has no limit.
    pub fn new() -> (logger: Logger)
        ensures
            logger.limit() is None,
    {
        let sink = Sink::new(None);
        Logger { sink: Arc::new(RwLock::new(sink, Ghost(SinkInv { limit: None }))) }
    }

    /// A logger with a sink of its own that takes up to `limit` bytes.
    pub fn with_limit(limit: usize) -> (logger: Logger)
        ensures
            logger.limit() == Some(limit),
    {
        let sink = Sink::new(Some(limit));
        Logger { sink: Arc::new(RwLock::new(sink, Ghost(SinkInv { limit: Some(limit) }))) }
    }

    /// Another handle to the same sink.
    pub fn share(&self) -> (logger: Logger)
        ensures
            logger == *self,
    {
        Logger { sink: share_sink(&self.sink) }
    }

    /// Writes `entry` to the sink, whole or not at all. A sink without a
    /// limit takes every entry. In a sink with a limit, whether there is
    /// room depends on what all the handles have written before; an entry
    /// that is longer than the limit is refused whatever the sink holds.
    pub fn log_entry(&self, entry: Entry) -> (r: Result<(), LogIoError>)
        ensures
            self.limit() is None ==> r is Ok,
            r is Ok ==> fits(self.limit(), 0, entry@.bytes().len()),
            r is Err ==> r == Err::<(), LogIoError>(LogIoError::SinkFull),
    {
        let (mut sink, guard) = self.sink.acquire_write();
        let r = sink.append(&entry);
        guard.release_write(sink);
        r
    }

    /// A copy of the bytes in the sink: whole entries and nothing else.
    pub fn bytes(&self) -> (bytes: Vec<u8>)
        ensures
            fits(self.limit(), bytes@.len(), 0),
            crate::entry::parse_stream(bytes@) is Ok,
    {
        let guard = self.sink.acquire_read();
        let sink = guard.borrow();
        let bytes = sink.to_bytes();
        proof {
            lemma_stream_roundtrip(sink.entries());
        }
        guard.release_read();
        bytes
    }

    /// The entries in the sink, the oldest first.
    pub fn entries(&self) -> (entries: Vec<Entry>)
        ensures
            fits(self.limit(), stream_bytes(entry_views(entries@)).len(), 0),
    {
        let guard = self.sink.acquire_read();
        let sink = guard.borrow();
        let entries = sink.to_entries();
        guard.release_read();
        entries
    }
}

} // verus!
