//! Verified core of an orbital gravity sandbox: planet naming, the text
//! format of saved simulations, trail ring buffers, list compaction and the
//! keyboard/tool decision logic.
pub mod text;
pub mod naming;
pub mod save_format;
pub mod compact;
pub mod trails;
pub mod controls;
