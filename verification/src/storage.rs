//! Storage-layer vocabulary: the error type and result rows storage
//! backends share, the taint storage interface with an in-memory
//! backend, and the text and number encodings the SQL and browser
//! backends store enums and object ids under.
pub mod codec;
pub mod columns;
pub mod indexeddb;
pub mod memory;
pub mod postgres;
pub mod sqlite;
pub mod traits;
