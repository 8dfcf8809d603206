//! Core of a speed-reading application: whitespace tokenization, windowed
//! word streaming, and the project and session catalogs that persist reading
//! progress.
pub mod words;
pub mod stream;
pub mod keyed;
pub mod document;
pub mod catalog;
pub mod session;
mod stamps;
pub mod import;
