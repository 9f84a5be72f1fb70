//! A path-addressed state-synchronisation runtime.
//!
//! The state of a program is a tree of typed nodes. Every field of a node
//! has a tag that never changes, every node has a path, the tags that lead
//! to it from the root, and every mutation of a node is recorded as an
//! entry of an ordered log, which a replication peer or an inspector reads
//! back.
//!
//! - [`path`]: the addresses of nodes.
//! - [`varint`]: variable-length integers.
//! - [`wire`]: the wire types and the wire format of a field.
//! - [`schema`]: the table of a type's tags, and the decoding of messages
//!   against it, with the passing over of unknown fields.
//! - [`entry`]: the entries of the log and their byte format.
//! - [`serialize`]: the values of a program as values on the wire.
//! - [`logger`]: the sink of the log and the shared handle to it.
//! - [`runtime`]: the handle through which a node reports its mutations.
//! - [`gen`]: the description of a schema and the generators of bindings.
//! - [`derive`]: what the deriving of schema code accepts and refuses.
//! - [`error`]: the errors of decoding, logging and declaring.

pub mod error;
pub mod path;
pub mod varint;
pub mod wire;
pub mod schema;
pub mod entry;
pub mod serialize;
pub mod logger;
pub mod runtime;
pub mod gen;
pub mod derive;
