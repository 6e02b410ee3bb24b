//! A small internationalization helper: it keeps one parsed translation
//! document per supported language, resolves dotted keys against the active
//! language with a fallback to the default (first) language, and changes the
//! active language only together with a successful write to a persistence
//! sink.

pub mod config;
pub mod errors;
pub mod json;
pub mod keys;
pub mod sink;
pub mod value;

pub use config::{I18n, I18nConfig, StorageType};
pub use errors::{InitError, StateError};
pub use sink::PersistenceSink;
pub use value::TransValue;
