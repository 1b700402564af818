//! Index engine for a build-id–addressed debug artifact server.
//!
//! The library holds the decision logic of the server: hex build-id
//! encoding, ELF build-id extraction, store path classification and
//! scanning, the persistent index with its per-field upsert, batch
//! validation against the store database, the polling state machine
//! with its watermark, and the replies of the retrieval front-end.
//! Process plumbing (HTTP framing, subprocesses, filesystem walks,
//! channels) lives outside the library and hands it plain values.

pub mod batch;
pub mod cache;
pub mod elfid;
pub mod entry;
pub mod hexid;
pub mod poller;
pub mod scan;
pub mod serve;
pub mod storepath;
pub mod text;
