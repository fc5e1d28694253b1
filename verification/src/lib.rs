//! An embedding layer over a scripting engine that is reached through a fixed
//! set of C entry points: reference-counted handles, a typed model of script
//! values, script evaluation, property access and native callbacks.
//!
//! - [`engine`]: the calls that go to the engine and the replies that come
//!   back, and the record of both that the contracts are stated over.
//! - [`text`]: host text as C strings, there and back.
//! - [`types`]: groups, contexts, engine strings, values, objects, exceptions.
//! - [`convert`]: typed reads of values.
//! - [`display`]: values as text for people.
//! - [`callback`]: the trampoline between script calls and native callbacks.
//! - [`refcount`]: the balance of references over a record of calls.
//!
//! The crate makes no foreign call and holds no floating point. The host
//! hands it a handler that performs the calls; numbers pass through as the
//! bits of a double.
pub mod callback;
pub mod convert;
pub mod display;
pub mod engine;
pub mod refcount;
pub mod text;
pub mod types;
