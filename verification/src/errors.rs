//! The errors of the library: fatal construction errors, and the recoverable
//! errors of a language change. A missed lookup is not an error (resolution
//! degrades to a placeholder instead).

use vstd::prelude::*;
use vstd::string::StringExecFns;

verus! {

/// Why construction of an [`crate::I18n`] failed. Construction is
/// all-or-nothing: any of these leaves no usable store behind.
#[derive(Debug, Clone, PartialEq)]
pub enum InitError {
    /// The configured language list is empty.
    NoLanguagesConfigured,
    /// A configured language has no raw translation document.
    MissingTranslation(String),
    /// A language's raw document failed to parse; carries the language and
    /// the parser's detail.
    InvalidDocument(String, String),
}

/// Why a language change was refused. Either way the state is left exactly as
/// it was before the call.
#[derive(Debug, Clone, PartialEq)]
pub enum StateError {
    /// The requested language is not in the configured list.
    UnsupportedLanguage(String),
    /// The persistence sink refused the write; carries the sink's detail.
    PersistenceFailure(String),
}

impl InitError {
    /// The human-readable description of this error.
    pub open spec fn spec_message(self) -> Seq<char> {
        match self {
            InitError::NoLanguagesConfigured => "You must add at least one supported language"@,
            InitError::MissingTranslation(l) => "Translation data for '"@ + l@ + "' not found"@,
            InitError::InvalidDocument(l, d) => "Invalid JSON for language "@ + l@ + ": "@ + d@,
        }
    }

    /// Renders the error as text.
    pub fn message(&self) -> (r: String)
        ensures
            r@ == self.spec_message(),
    {
        match self {
            InitError::NoLanguagesConfigured => String::from_str(
                "You must add at least one supported language",
            ),
            InitError::MissingTranslation(l) => {
                let mut out = String::from_str("Translation data for '");
                out.append(l.as_str());
                out.append("' not found");
                out
            },
            InitError::InvalidDocument(l, d) => {
                let mut out = String::from_str("Invalid JSON for language ");
                out.append(l.as_str());
                out.append(": ");
                out.append(d.as_str());
                out
            },
        }
    }
}

impl StateError {
    /// The human-readable description of this error.
    pub open spec fn spec_message(self) -> Seq<char> {
        match self {
            StateError::UnsupportedLanguage(l) => "Language '"@ + l@ + "' is not supported"@,
            StateError::PersistenceFailure(d) => "Failed to write to storage: "@ + d@,
        }
    }

    /// Renders the error as text.
    pub fn message(&self) -> (r: String)
        ensures
            r@ == self.spec_message(),
    {
        match self {
            StateError::UnsupportedLanguage(l) => {
                let mut out = String::from_str("Language '");
                out.append(l.as_str());
                out.append("' is not supported");
                out
            },
            StateError::PersistenceFailure(d) => {
                let mut out = String::from_str("Failed to write to storage: ");
                out.append(d.as_str());
                out
            },
        }
    }
}

} // verus!
