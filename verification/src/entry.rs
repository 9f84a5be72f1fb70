//! The entries of the change log: one addressed mutation each, with the
//! byte format in which they are kept.

use crate::error::DecodeError;
use crate::path::Path;
use crate::varint::{
    decode_u64, lemma_u64_roundtrip, lemma_varint_len_u64, lemma_varint_prefix_bounds,
    read_varint, varint_bytes, write_varint, MAX_VARINT_LEN,
};
use crate::wire::{
    field_bytes, lemma_field_roundtrip, lemma_payload_roundtrip, parse_field, parse_payload,
    read_field, read_payload, write_field, Value, ValueView, WireType,
};
use vstd::prelude::*;
use vstd::std_specs::cmp::PartialEqSpecImpl;

verus! {

/// What happened at the node that an entry addresses.
#[derive(Debug)]
pub enum EntryKind {
    /// The field at `tag` was replaced by `value`.
    Update { tag: u16, value: Value },
    /// `item` was appended to the list that the node is.
    Add { item: Value },
    /// What `tag` keyed was removed.
    Remove { tag: u16 },
}

/// What an `EntryKind` holds.
pub ghost enum EntryKindView {
    Update { tag: u16, value: ValueView },
    Add { item: ValueView },
    Remove { tag: u16 },
}

impl View for EntryKind {
    type V = EntryKindView;

    open spec fn view(&self) -> EntryKindView {
        match self {
            EntryKind::Update { tag, value } => EntryKindView::Update { tag: *tag, value: value@ },
            EntryKind::Add { item } => EntryKindView::Add { item: item@ },
            EntryKind::Remove { tag } => EntryKindView::Remove { tag: *tag },
        }
    }
}

/// One record of the log: where, and what.
#[derive(Debug)]
pub struct Entry {
    pub path: Path,
    pub kind: EntryKind,
}

/// What an `Entry` holds.
pub ghost struct EntryView {
    pub path: Seq<u16>,
    pub kind: EntryKindView,
}

impl View for Entry {
    type V = EntryView;

    open spec fn view(&self) -> EntryView {
        EntryView { path: self.path@, kind: self.kind@ }
    }
}

/// The code of the kind `Update` in an encoded entry.
pub const KIND_UPDATE: u8 = 0;

/// The code of the kind `Add` in an encoded entry.
pub const KIND_ADD: u8 = 1;

/// The code of the kind `Remove` in an encoded entry.
pub const KIND_REMOVE: u8 = 2;

impl EntryKindView {
    /// The code that tells the three kinds apart.
    pub open spec fn code(self) -> u8 {
        match self {
            EntryKindView::Update { .. } => KIND_UPDATE,
            EntryKindView::Add { .. } => KIND_ADD,
            EntryKindView::Remove { .. } => KIND_REMOVE,
        }
    }

    /// A kind can be written if the value in it can.
    pub open spec fn wf(self) -> bool {
        match self {
            EntryKindView::Update { tag, value } => value.wf(),
            EntryKindView::Add { item } => item.wf(),
            EntryKindView::Remove { tag } => true,
        }
    }

    /// The code of the kind, then what the kind holds: a whole field for an
    /// update, the wire type and the payload of the item for an addition,
    /// the tag for a removal.
    pub open spec fn bytes(self) -> Seq<u8> {
        match self {
            EntryKindView::Update { tag, value } => seq![KIND_UPDATE] + field_bytes(tag, value),
            EntryKindView::Add { item } => seq![KIND_ADD, item.wire_type().spec_code()]
                + item.payload(),
            EntryKindView::Remove { tag } => seq![KIND_REMOVE] + varint_bytes(tag as nat),
        }
    }
}

impl EntryView {
    /// An entry can be written if the length of its path fits the count
    /// that precedes the tags, and its kind can be written.
    pub open spec fn wf(self) -> bool {
        self.path.len() <= u64::MAX && self.kind.wf()
    }

    /// The path, then the kind.
    pub open spec fn bytes(self) -> Seq<u8> {
        path_bytes(self.path) + self.kind.bytes()
    }
}

/// The tags of a path one after the other, each as a variable-length
/// integer.
pub open spec fn tags_bytes(tags: Seq<u16>) -> Seq<u8>
    decreases tags.len(),
{
    if tags.len() == 0 {
        Seq::empty()
    } else {
        varint_bytes(tags[0] as nat) + tags_bytes(tags.skip(1))
    }
}

/// A path: the number of its tags, then the tags.
pub open spec fn path_bytes(path: Seq<u16>) -> Seq<u8> {
    varint_bytes(path.len()) + tags_bytes(path)
}

/// The entries of a log one after the other, in their order.
pub open spec fn stream_bytes(entries: Seq<EntryView>) -> Seq<u8>
    decreases entries.len(),
{
    if entries.len() == 0 {
        Seq::empty()
    } else {
        entries[0].bytes() + stream_bytes(entries.skip(1))
    }
}

/// The `count` tags at the front of `s`, and the bytes they take.
pub open spec fn parse_tags(s: Seq<u8>, count: nat) -> Result<(Seq<u16>, nat), DecodeError>
    decreases count,
{
    if count == 0 {
        Ok((Seq::empty(), 0nat))
    } else {
        match decode_u64(s) {
            Err(e) => Err(e),
            Ok((tag, n)) => if tag > u16::MAX {
                Err(DecodeError::InvalidVarint)
            } else {
                match parse_tags(s.skip(n as int), (count - 1) as nat) {
                    Err(e) => Err(e),
                    Ok((rest, m)) => Ok((seq![tag as u16] + rest, n + m)),
                }
            },
        }
    }
}

/// The path at the front of `s`, and the bytes it takes.
pub open spec fn parse_path(s: Seq<u8>) -> Result<(Seq<u16>, nat), DecodeError> {
    match decode_u64(s) {
        Err(e) => Err(e),
        Ok((count, n)) => match parse_tags(s.skip(n as int), count as nat) {
            Err(e) => Err(e),
            Ok((tags, m)) => Ok((tags, n + m)),
        },
    }
}

/// The kind at the front of `s`, and the bytes it takes.
pub open spec fn parse_kind(s: Seq<u8>) -> Result<(EntryKindView, nat), DecodeError> {
    if s.len() == 0 {
        Err(DecodeError::Truncated)
    } else if s[0] == KIND_UPDATE {
        match parse_field(s.skip(1)) {
            Err(e) => Err(e),
            Ok((tag, value, n)) => Ok((EntryKindView::Update { tag, value }, n + 1)),
        }
    } else if s[0] == KIND_ADD {
        if s.len() < 2 {
            Err(DecodeError::Truncated)
        } else {
            match WireType::spec_from_code(s[1]) {
                None => Err(DecodeError::InvalidHeader),
                Some(wire_type) => match parse_payload(s.skip(2), wire_type) {
                    Err(e) => Err(e),
                    Ok((item, n)) => Ok((EntryKindView::Add { item }, n + 2)),
                },
            }
        }
    } else if s[0] == KIND_REMOVE {
        match decode_u64(s.skip(1)) {
            Err(e) => Err(e),
            Ok((tag, n)) => if tag > u16::MAX {
                Err(DecodeError::InvalidVarint)
            } else {
                Ok((EntryKindView::Remove { tag: tag as u16 }, n + 1))
            },
        }
    } else {
        Err(DecodeError::InvalidKind)
    }
}

/// The entry at the front of `s`, and the bytes it takes.
pub open spec fn parse_entry(s: Seq<u8>) -> Result<(EntryView, nat), DecodeError> {
    match parse_path(s) {
        Err(e) => Err(e),
        Ok((path, n)) => match parse_kind(s.skip(n as int)) {
            Err(e) => Err(e),
            Ok((kind, m)) => Ok((EntryView { path, kind }, n + m)),
        },
    }
}

/// The entries that `s` is made of, if it is made of whole entries and
/// nothing else.
pub open spec fn parse_stream(s: Seq<u8>) -> Result<Seq<EntryView>, DecodeError>
    decreases s.len(),
{
    if s.len() == 0 {
        Ok(Seq::empty())
    } else {
        match parse_entry(s) {
            Err(e) => Err(e),
            Ok((entry, n)) => {
                proof {
                    lemma_parse_entry_bounds(s);
                }
                match parse_stream(s.skip(n as int)) {
                    Err(e) => Err(e),
                    Ok(rest) => Ok(seq![entry] + rest),
                }
            },
        }
    }
}

/// What was read as tags is no more than what stands there.
pub proof fn lemma_parse_tags_bounds(s: Seq<u8>, count: nat)
    ensures
        match parse_tags(s, count) {
            Ok((tags, n)) => n <= s.len() && tags.len() == count,
            Err(_) => true,
        },
    decreases count,
{
    if count > 0 {
        lemma_varint_prefix_bounds(s, MAX_VARINT_LEN as nat);
        if let Ok((_, n)) = decode_u64(s) {
            lemma_parse_tags_bounds(s.skip(n as int), (count - 1) as nat);
        }
    }
}

/// What was read as an entry is at least two bytes and no more than what
/// stands there.
pub proof fn lemma_parse_entry_bounds(s: Seq<u8>)
    ensures
        match parse_entry(s) {
            Ok((_, n)) => 2 <= n <= s.len(),
            Err(_) => true,
        },
{
    lemma_varint_prefix_bounds(s, MAX_VARINT_LEN as nat);
    if let Ok((count, n)) = decode_u64(s) {
        lemma_parse_tags_bounds(s.skip(n as int), count as nat);
        if let Ok((_, n)) = parse_path(s) {
            let t = s.skip(n as int);
            if t.len() > 0 {
                crate::wire::lemma_parse_field_bounds(t.skip(1));
                lemma_varint_prefix_bounds(t.skip(1), MAX_VARINT_LEN as nat);
                if t.len() >= 2 {
                    lemma_varint_prefix_bounds(t.skip(2), MAX_VARINT_LEN as nat);
                }
            }
        }
    }
}

/// The tags of a longer path are the tags of the shorter one and then the
/// new tag.
pub proof fn lemma_tags_bytes_push(tags: Seq<u16>, tag: u16)
    ensures
        tags_bytes(tags.push(tag)) == tags_bytes(tags) + varint_bytes(tag as nat),
    decreases tags.len(),
{
    reveal_with_fuel(tags_bytes, 2);
    if tags.len() == 0 {
        assert(tags.push(tag).skip(1) =~= Seq::<u16>::empty());
        assert(tags_bytes(tags.push(tag)) =~= tags_bytes(tags) + varint_bytes(tag as nat));
    } else {
        assert(tags.push(tag).skip(1) =~= tags.skip(1).push(tag));
        lemma_tags_bytes_push(tags.skip(1), tag);
        assert(tags_bytes(tags.push(tag)) =~= tags_bytes(tags) + varint_bytes(tag as nat));
    }
}

/// A log that grows by one entry grows by the bytes of that entry, at its
/// end.
pub proof fn lemma_stream_bytes_push(entries: Seq<EntryView>, entry: EntryView)
    ensures
        stream_bytes(entries.push(entry)) == stream_bytes(entries) + entry.bytes(),
    decreases entries.len(),
{
    reveal_with_fuel(stream_bytes, 2);
    if entries.len() == 0 {
        assert(entries.push(entry).skip(1) =~= Seq::<EntryView>::empty());
        assert(stream_bytes(entries.push(entry)) =~= stream_bytes(entries) + entry.bytes());
    } else {
        assert(entries.push(entry).skip(1) =~= entries.skip(1).push(entry));
        lemma_stream_bytes_push(entries.skip(1), entry);
        assert(stream_bytes(entries.push(entry)) =~= stream_bytes(entries) + entry.bytes());
    }
}

/// Tags that were written are read back, whatever follows them.
pub proof fn lemma_tags_roundtrip(tags: Seq<u16>, rest: Seq<u8>)
    ensures
        parse_tags(tags_bytes(tags) + rest, tags.len()) == Ok::<(Seq<u16>, nat), DecodeError>(
            (tags, tags_bytes(tags).len()),
        ),
    decreases tags.len(),
{
    if tags.len() > 0 {
        let head = varint_bytes(tags[0] as nat);
        let tail = tags_bytes(tags.skip(1));
        let s = tags_bytes(tags) + rest;
        assert(s =~= head + (tail + rest));
        lemma_u64_roundtrip(tags[0] as u64, tail + rest);
        assert(s.skip(head.len() as int) =~= tail + rest);
        lemma_tags_roundtrip(tags.skip(1), rest);
        assert(seq![tags[0]] + tags.skip(1) =~= tags);
    } else {
        assert(tags =~= Seq::<u16>::empty());
    }
}

/// A path that was written is read back, whatever follows it.
pub proof fn lemma_path_roundtrip(path: Seq<u16>, rest: Seq<u8>)
    requires
        path.len() <= u64::MAX,
    ensures
        parse_path(path_bytes(path) + rest) == Ok::<(Seq<u16>, nat), DecodeError>(
            (path, path_bytes(path).len()),
        ),
{
    let count = varint_bytes(path.len());
    let s = path_bytes(path) + rest;
    assert(s =~= count + (tags_bytes(path) + rest));
    lemma_u64_roundtrip(path.len() as u64, tags_bytes(path) + rest);
    assert(s.skip(count.len() as int) =~= tags_bytes(path) + rest);
    lemma_tags_roundtrip(path, rest);
}

/// A kind that was written is read back, whatever follows it.
pub proof fn lemma_kind_roundtrip(kind: EntryKindView, rest: Seq<u8>)
    requires
        kind.wf(),
    ensures
        parse_kind(kind.bytes() + rest) == Ok::<(EntryKindView, nat), DecodeError>(
            (kind, kind.bytes().len()),
        ),
{
    let s = kind.bytes() + rest;
    match kind {
        EntryKindView::Update { tag, value } => {
            assert(s.skip(1) =~= field_bytes(tag, value) + rest);
            lemma_field_roundtrip(tag, value, rest);
        },
        EntryKindView::Add { item } => {
            assert(s.skip(2) =~= item.payload() + rest);
            lemma_payload_roundtrip(item, rest);
        },
        EntryKindView::Remove { tag } => {
            assert(s.skip(1) =~= varint_bytes(tag as nat) + rest);
            lemma_u64_roundtrip(tag as u64, rest);
        },
    }
}

/// Round trip: an entry that was written is read back, path, kind and
/// payload, whatever follows it.
pub proof fn lemma_entry_roundtrip(entry: EntryView, rest: Seq<u8>)
    requires
        entry.wf(),
    ensures
        parse_entry(entry.bytes() + rest) == Ok::<(EntryView, nat), DecodeError>(
            (entry, entry.bytes().len()),
        ),
        entry.bytes().len() >= 2,
{
    let s = entry.bytes() + rest;
    assert(s =~= path_bytes(entry.path) + (entry.kind.bytes() + rest));
    lemma_path_roundtrip(entry.path, entry.kind.bytes() + rest);
    assert(s.skip(path_bytes(entry.path).len() as int) =~= entry.kind.bytes() + rest);
    lemma_kind_roundtrip(entry.kind, rest);
    lemma_varint_len_u64(entry.path.len() as u64);
}

/// A log that was written is read back: the same entries in the same
/// order.
pub proof fn lemma_stream_roundtrip(entries: Seq<EntryView>)
    requires
        forall|i: int| 0 <= i < entries.len() ==> (#[trigger] entries[i]).wf(),
    ensures
        parse_stream(stream_bytes(entries)) == Ok::<Seq<EntryView>, DecodeError>(entries),
    decreases entries.len(),
{
    if entries.len() > 0 {
        let rest = stream_bytes(entries.skip(1));
        lemma_entry_roundtrip(entries[0], rest);
        assert(stream_bytes(entries).skip(entries[0].bytes().len() as int) =~= rest);
        assert forall|i: int| 0 <= i < entries.skip(1).len() implies (#[trigger] entries.skip(
            1,
        )[i]).wf() by {
            assert(entries.skip(1)[i] == entries[i + 1]);
        }
        lemma_stream_roundtrip(entries.skip(1));
        assert(seq![entries[0]] + entries.skip(1) =~= entries);
    } else {
        assert(entries =~= Seq::<EntryView>::empty());
    }
}

/// What a vector of entries holds.
pub open spec fn entry_views(entries: Seq<Entry>) -> Seq<EntryView> {
    entries.map_values(|entry: Entry| entry@)
}

/// Appends a path to `out`.
pub fn write_path(out: &mut Vec<u8>, path: &Path)
    ensures
        final(out)@ == old(out)@ + path_bytes(path@),
{
    let tags = path.tags();
    write_varint(out, tags.len() as u64);
    let mut i: usize = 0;
    while i < tags.len()
        invariant
            i <= tags.len(),
            tags@ == path@,
            out@ == old(out)@ + varint_bytes(path@.len()) + tags_bytes(tags@.take(i as int)),
        decreases tags.len() - i,
    {
        let ghost before = out@;
        write_varint(out, tags[i] as u64);
        proof {
            lemma_tags_bytes_push(tags@.take(i as int), tags@[i as int]);
            assert(tags@.take(i + 1) =~= tags@.take(i as int).push(tags@[i as int]));
            assert(out@ =~= old(out)@ + varint_bytes(path@.len()) + tags_bytes(
                tags@.take(i + 1),
            ));
        }
        i += 1;
    }
    assert(tags@.take(i as int) =~= tags@);
    assert(out@ =~= old(out)@ + path_bytes(path@));
}

impl Clone for EntryKind {
    fn clone(&self) -> (copy: EntryKind)
        ensures
            copy@ == self@,
    {
        match self {
            EntryKind::Update { tag, value } => EntryKind::Update {
                tag: *tag,
                value: value.clone(),
            },
            EntryKind::Add { item } => EntryKind::Add { item: item.clone() },
            EntryKind::Remove { tag } => EntryKind::Remove { tag: *tag },
        }
    }
}

impl PartialEq for EntryKind {
    /// Two kinds are equal when they are the same kind and hold the same
    /// tag and value.
    fn eq(&self, other: &EntryKind) -> (equal: bool) {
        match (self, other) {
            (EntryKind::Update { tag: a, value: v }, EntryKind::Update { tag: b, value: w }) => {
                *a == *b && *v == *w
            },
            (EntryKind::Add { item: v }, EntryKind::Add { item: w }) => *v == *w,
            (EntryKind::Remove { tag: a }, EntryKind::Remove { tag: b }) => *a == *b,
            _ => false,
        }
    }
}

impl PartialEqSpecImpl for EntryKind {
    open spec fn obeys_eq_spec() -> bool {
        true
    }

    open spec fn eq_spec(&self, other: &EntryKind) -> bool {
        self@ == other@
    }
}

impl Eq for EntryKind {

}

impl Clone for Entry {
    fn clone(&self) -> (copy: Entry)
        ensures
            copy@ == self@,
    {
        Entry { path: self.path.clone(), kind: self.kind.clone() }
    }
}

impl PartialEq for Entry {
    /// Two entries are equal when they record the same mutation at the
    /// same address.
    fn eq(&self, other: &Entry) -> (equal: bool) {
        self.path == other.path && self.kind == other.kind
    }
}

impl PartialEqSpecImpl for Entry {
    open spec fn obeys_eq_spec() -> bool {
        true
    }

    open spec fn eq_spec(&self, other: &Entry) -> bool {
        self@ == other@
    }
}

impl Eq for Entry {

}

impl EntryKind {
    /// Appends the kind to `out`.
    pub fn write(&self, out: &mut Vec<u8>)
        ensures
            final(out)@ == old(out)@ + self@.bytes(),
    {
        match self {
            EntryKind::Update { tag, value } => {
                out.push(KIND_UPDATE);
                write_field(out, *tag, value);
                assert(out@ =~= old(out)@ + self@.bytes());
            },
            EntryKind::Add { item } => {
                out.push(KIND_ADD);
                out.push(item.wire_type().code());
                item.write_payload(out);
                assert(out@ =~= old(out)@ + self@.bytes());
            },
            EntryKind::Remove { tag } => {
                out.push(KIND_REMOVE);
                write_varint(out, *tag as u64);
                assert(out@ =~= old(out)@ + self@.bytes());
            },
        }
    }
}

impl Entry {
    /// The entry that records `kind` at `path`.
    pub fn new(path: &Path, kind: EntryKind) -> (entry: Entry)
        ensures
            entry@ == (EntryView { path: path@, kind: kind@ }),
    {
        Entry { path: path.clone(), kind }
    }

    /// Every entry that a program can hold can be written.
    pub proof fn lemma_wf(&self)
        ensures
            self@.wf(),
    {
        self.path.lemma_len_fits();
        match self.kind {
            EntryKind::Update { tag, value } => value.lemma_wf(),
            EntryKind::Add { item } => item.lemma_wf(),
            EntryKind::Remove { tag } => {},
        }
    }

    /// Appends the entry to `out`.
    pub fn write(&self, out: &mut Vec<u8>)
        ensures
            final(out)@ == old(out)@ + self@.bytes(),
    {
        write_path(out, &self.path);
        self.kind.write(out);
        assert(out@ =~= old(out)@ + self@.bytes());
    }

    /// The bytes of the entry.
    pub fn encode(&self) -> (bytes: Vec<u8>)
        ensures
            bytes@ == self@.bytes(),
    {
        let mut bytes: Vec<u8> = Vec::new();
        self.write(&mut bytes);
        assert(bytes@ =~= self@.bytes());
        bytes
    }
}

/// Reads the path that stands in `buf` at `pos`.
pub(crate) fn read_path(buf: &[u8], pos: usize) -> (r: Result<(Path, usize), DecodeError>)
    requires
        pos <= buf.len(),
    ensures
        match r {
            Ok((path, n)) => parse_path(buf@.skip(pos as int)) == Ok::<
                (Seq<u16>, nat),
                DecodeError,
            >((path@, n as nat)) && pos + n <= buf.len(),
            Err(e) => parse_path(buf@.skip(pos as int)) == Err::<(Seq<u16>, nat), DecodeError>(e),
        },
{
    let (count, first) = match read_varint(buf, pos) {
        Err(e) => {
            return Err(e);
        },
        Ok(read) => read,
    };
    let ghost s = buf@.skip(pos + first);
    assert(buf@.skip(pos as int).skip(first as int) =~= s);
    let mut tags: Vec<u16> = Vec::new();
    let mut at: usize = pos + first;
    let mut i: u64 = 0;
    while i < count
        invariant
            i <= count,
            pos + first <= at <= buf.len(),
            decode_u64(buf@.skip(pos as int)) == Ok::<(u64, nat), DecodeError>(
                (count, first as nat),
            ),
            buf@.skip(pos as int).skip(first as int) == s,
            parse_tags(s, count as nat) == match parse_tags(
                buf@.skip(at as int),
                (count - i) as nat,
            ) {
                Ok((rest, m)) => Ok::<(Seq<u16>, nat), DecodeError>(
                    (tags@ + rest, (at - pos - first + m) as nat),
                ),
                Err(e) => Err(e),
            },
        decreases count - i,
    {
        match read_varint(buf, at) {
            Err(e) => {
                return Err(e);
            },
            Ok((tag, n)) => {
                if tag > u16::MAX as u64 {
                    return Err(DecodeError::InvalidVarint);
                }
                proof {
                    let next = parse_tags(buf@.skip(at + n), (count - i - 1) as nat);
                    assert(buf@.skip(at as int).skip(n as int) =~= buf@.skip(at + n));
                    if let Ok((rest, m)) = next {
                        assert(tags@ + (seq![tag as u16] + rest) =~= tags@.push(tag as u16)
                            + rest);
                    }
                }
                tags.push(tag as u16);
                at = at + n;
                i = i + 1;
            },
        }
    }
    assert(tags@ + Seq::<u16>::empty() =~= tags@);
    Ok((Path::from_tags(tags), at - pos))
}

/// Reads the kind that stands in `buf` at `pos`.
pub(crate) fn read_kind(buf: &[u8], pos: usize) -> (r: Result<(EntryKind, usize), DecodeError>)
    requires
        pos <= buf.len(),
    ensures
        match r {
            Ok((kind, n)) => parse_kind(buf@.skip(pos as int)) == Ok::<
                (EntryKindView, nat),
                DecodeError,
            >((kind@, n as nat)) && pos + n <= buf.len(),
            Err(e) => parse_kind(buf@.skip(pos as int)) == Err::<
                (EntryKindView, nat),
                DecodeError,
            >(e),
        },
{
    if pos >= buf.len() {
        return Err(DecodeError::Truncated);
    }
    let ghost s = buf@.skip(pos as int);
    let code: u8 = buf[pos];
    assert(s[0] == code);
    assert(s.skip(1) =~= buf@.skip(pos + 1));
    if code == KIND_UPDATE {
        match read_field(buf, pos + 1) {
            Err(e) => Err(e),
            Ok((tag, value, n)) => Ok((EntryKind::Update { tag, value }, n + 1)),
        }
    } else if code == KIND_ADD {
        if buf.len() - pos < 2 {
            return Err(DecodeError::Truncated);
        }
        assert(s[1] == buf@[pos + 1]);
        assert(s.skip(2) =~= buf@.skip(pos + 2));
        match WireType::from_code(buf[pos + 1]) {
            None => Err(DecodeError::InvalidHeader),
            Some(wire_type) => match read_payload(buf, pos + 2, wire_type) {
                Err(e) => Err(e),
                Ok((item, n)) => Ok((EntryKind::Add { item }, n + 2)),
            },
        }
    } else if code == KIND_REMOVE {
        match read_varint(buf, pos + 1) {
            Err(e) => Err(e),
            Ok((tag, n)) => {
                if tag > u16::MAX as u64 {
                    Err(DecodeError::InvalidVarint)
                } else {
                    Ok((EntryKind::Remove { tag: tag as u16 }, n + 1))
                }
            },
        }
    } else {
        Err(DecodeError::InvalidKind)
    }
}

/// Reads the entry that stands in `buf` at `pos`.
pub(crate) fn read_entry(buf: &[u8], pos: usize) -> (r: Result<(Entry, usize), DecodeError>)
    requires
        pos <= buf.len(),
    ensures
        match r {
            Ok((entry, n)) => parse_entry(buf@.skip(pos as int)) == Ok::<
                (EntryView, nat),
                DecodeError,
            >((entry@, n as nat)) && pos + n <= buf.len(),
            Err(e) => parse_entry(buf@.skip(pos as int)) == Err::<(EntryView, nat), DecodeError>(
                e,
            ),
        },
{
    match read_path(buf, pos) {
        Err(e) => Err(e),
        Ok((path, n)) => {
            assert(buf@.skip(pos as int).skip(n as int) =~= buf@.skip(pos + n));
            match read_kind(buf, pos + n) {
                Err(e) => Err(e),
                Ok((kind, m)) => Ok((Entry { path, kind }, n + m)),
            }
        },
    }
}

/// Reads the path at the front of `bytes`, and says how many bytes it
/// takes.
pub fn decode_path(bytes: &[u8]) -> (r: Result<(Path, usize), DecodeError>)
    ensures
        match r {
            Ok((path, n)) => parse_path(bytes@) == Ok::<(Seq<u16>, nat), DecodeError>(
                (path@, n as nat),
            ),
            Err(e) => parse_path(bytes@) == Err::<(Seq<u16>, nat), DecodeError>(e),
        },
{
    assert(bytes@.skip(0) =~= bytes@);
    read_path(bytes, 0)
}

/// Reads the entry at the front of `bytes`, and says how many bytes it
/// takes.
pub fn decode_entry(bytes: &[u8]) -> (r: Result<(Entry, usize), DecodeError>)
    ensures
        match r {
            Ok((entry, n)) => parse_entry(bytes@) == Ok::<(EntryView, nat), DecodeError>(
                (entry@, n as nat),
            ),
            Err(e) => parse_entry(bytes@) == Err::<(EntryView, nat), DecodeError>(e),
        },
{
    assert(bytes@.skip(0) =~= bytes@);
    read_entry(bytes, 0)
}

/// Reads a whole log: every entry of `bytes`, in the order in which they
/// stand there. Bytes that are not whole entries fail the log.
pub fn decode_stream(bytes: &[u8]) -> (r: Result<Vec<Entry>, DecodeError>)
    ensures
        match r {
            Ok(entries) => parse_stream(bytes@) == Ok::<Seq<EntryView>, DecodeError>(
                entry_views(entries@),
            ),
            Err(e) => parse_stream(bytes@) == Err::<Seq<EntryView>, DecodeError>(e),
        },
{
    let mut entries: Vec<Entry> = Vec::new();
    let mut pos: usize = 0;
    proof {
        assert(bytes@.skip(0) =~= bytes@);
        if let Ok(all) = parse_stream(bytes@) {
            assert(entry_views(entries@) + all =~= all);
        }
    }
    while pos < bytes.len()
        invariant
            pos <= bytes.len(),
            parse_stream(bytes@) == match parse_stream(bytes@.skip(pos as int)) {
                Ok(rest) => Ok::<Seq<EntryView>, DecodeError>(entry_views(entries@) + rest),
                Err(e) => Err(e),
            },
        decreases bytes.len() - pos,
    {
        match read_entry(bytes, pos) {
            Err(e) => {
                return Err(e);
            },
            Ok((entry, n)) => {
                proof {
                    lemma_parse_entry_bounds(bytes@.skip(pos as int));
                    assert(bytes@.skip(pos as int).skip(n as int) =~= bytes@.skip(pos + n));
                    if let Ok(rest) = parse_stream(bytes@.skip(pos + n)) {
                        assert(entry_views(entries@) + (seq![entry@] + rest) =~= entry_views(
                            entries@.push(entry),
                        ) + rest);
                    }
                }
                entries.push(entry);
                pos = pos + n;
            },
        }
    }
    assert(entry_views(entries@) + Seq::<EntryView>::empty() =~= entry_views(entries@));
    Ok(entries)
}

/// Order: entries that are written one after the other stand in the log
/// one after the other, each whole, and a reader gets them back in the
/// order in which they were written.
pub proof fn lemma_written_in_order(first: EntryView, second: EntryView, third: EntryView)
    requires
        first.wf(),
        second.wf(),
        third.wf(),
    ensures
        stream_bytes(Seq::<EntryView>::empty().push(first).push(second).push(third))
            == first.bytes() + second.bytes() + third.bytes(),
        parse_stream(first.bytes() + second.bytes() + third.bytes()) == Ok::<
            Seq<EntryView>,
            DecodeError,
        >(seq![first, second, third]),
{
    let none = Seq::<EntryView>::empty();
    let entries = none.push(first).push(second).push(third);
    lemma_stream_bytes_push(none, first);
    lemma_stream_bytes_push(none.push(first), second);
    lemma_stream_bytes_push(none.push(first).push(second), third);
    assert(stream_bytes(entries) =~= first.bytes() + second.bytes() + third.bytes());
    assert(entries =~= seq![first, second, third]);
    lemma_stream_roundtrip(entries);
}

} // verus!
