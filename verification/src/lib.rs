//! The cache pipeline of an EPUB reader: opening an archive, caching its
//! chapters as plain text, and the background state machine that keeps the
//! cache ahead of the reader.
//!
//! Nothing here touches storage, the archive format or the image worker. Each
//! operation is a function from the reader's state and an event to the next
//! state and an action: the caller performs the action and hands its outcome
//! back as the next event, until the action is `Done`.
pub mod archive;
pub mod archive_laws;
pub mod background;
pub mod background_laws;
pub mod book_laws;
pub mod chapter;
pub mod chapter_laws;
pub mod error;
pub mod load;
pub mod load_laws;
pub mod memory;
pub mod open_laws;
pub mod order_laws;
pub mod package;
pub mod package_laws;
pub mod reader;
pub mod reader_laws;
pub mod record;
pub mod record_laws;
pub mod stream;
pub mod stream_laws;
pub mod text;
pub mod tick_laws;
