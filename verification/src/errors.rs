//! Failures that the theme manager reports.

use vstd::prelude::*;

verus! {

/// A parse failure reported by the `semver` crate. Nothing is known of its contents.
#[verifier::external_type_specification]
#[verifier::external_body]
pub struct ExSemverError(semver::Error);

/// A parse failure reported by the `url` crate. Nothing is known of its contents.
#[verifier::external_type_specification]
#[verifier::external_body]
pub struct ExUrlParseError(url::ParseError);

/// What went wrong.
#[derive(Debug)]
pub enum LeftErrorKind {
    /// Something that was needed is not there.
    NoneError(),
    /// A failure to tell the user of, in the words to tell it in.
    UserFriendlyError(String),
    /// A version or a version requirement could not be parsed.
    SemVerError(semver::Error),
    /// The address of a registry is no URL.
    UrlParseError(url::ParseError),
    /// A registry or a batch of themes is laid out in a way that is newer than this
    /// library knows.
    DefinitionsOutOfDate,
    /// The output of a program is not UTF-8.
    UtfError,
}

/// A failure of the theme manager.
#[derive(Debug)]
pub struct LeftError {
    pub inner: LeftErrorKind,
}

/// Formats a `semver::Error` by its `Display`.
#[verifier::external_body]
fn semver_error_text(err: &semver::Error) -> (r: String) {
    err.to_string()
}

/// Formats a `url::ParseError` by its `Display`.
#[verifier::external_body]
fn url_error_text(err: &url::ParseError) -> (r: String) {
    err.to_string()
}

/// What is said of a failure that is not for the user to read.
pub const GENERIC_REPORT: &'static str = "Operation did not complete successfully";

impl LeftErrorKind {
    /// The failure in words. Of a failure that an outside parser reports, the words are
    /// the parser's.
    pub fn message(&self) -> (r: String)
        ensures
            match *self {
                LeftErrorKind::NoneError() => r@ == "None Error"@,
                LeftErrorKind::UserFriendlyError(text) => r@ == text@,
                LeftErrorKind::DefinitionsOutOfDate => r@ == "Definitions file out of date."@,
                LeftErrorKind::UtfError => r@ == "UTF Error"@,
                LeftErrorKind::SemVerError(_) => true,
                LeftErrorKind::UrlParseError(_) => true,
            },
    {
        match self {
            LeftErrorKind::NoneError() => "None Error".to_string(),
            LeftErrorKind::UserFriendlyError(text) => text.clone(),
            LeftErrorKind::DefinitionsOutOfDate => "Definitions file out of date.".to_string(),
            LeftErrorKind::UtfError => "UTF Error".to_string(),
            LeftErrorKind::SemVerError(err) => semver_error_text(err),
            LeftErrorKind::UrlParseError(err) => url_error_text(err),
        }
    }
}

impl LeftError {
    /// The failure in words (see [`LeftErrorKind::message`]).
    pub fn message(&self) -> (r: String)
        ensures
            self.inner matches LeftErrorKind::UserFriendlyError(text) ==> r@ == text@,
            self.inner is NoneError ==> r@ == "None Error"@,
            self.inner is DefinitionsOutOfDate ==> r@ == "Definitions file out of date."@,
            self.inner is UtfError ==> r@ == "UTF Error"@,
    {
        self.inner.message()
    }

    /// What to tell the user of the failure: its own words where it was made for the
    /// user to read, and else that the operation did not complete.
    pub fn report(&self) -> (r: String)
        ensures
            r@ == match self.inner {
                LeftErrorKind::UserFriendlyError(text) => text@,
                _ => GENERIC_REPORT@,
            },
    {
        match &self.inner {
            LeftErrorKind::UserFriendlyError(text) => text.clone(),
            _ => GENERIC_REPORT.to_string(),
        }
    }
}

/// Whether a failure is one to tell the user of, in the given words.
pub open spec fn is_friendly(e: LeftError, message: Seq<char>) -> bool {
    e.inner matches LeftErrorKind::UserFriendlyError(words) && words@ == message
}

/// A failure to tell the user of, in the given words.
#[must_use]
pub fn friendly_message(msg: &str) -> (e: LeftError)
    ensures
        e.inner matches LeftErrorKind::UserFriendlyError(text) && text@ == msg@,
{
    LeftError { inner: LeftErrorKind::UserFriendlyError(msg.to_string()) }
}

impl From<LeftErrorKind> for LeftError {
    fn from(inner: LeftErrorKind) -> (e: LeftError) {
        LeftError { inner }
    }
}

impl vstd::std_specs::convert::FromSpecImpl<LeftErrorKind> for LeftError {
    open spec fn obeys_from_spec() -> bool {
        true
    }

    open spec fn from_spec(inner: LeftErrorKind) -> LeftError {
        LeftError { inner }
    }
}

impl From<&str> for LeftError {
    fn from(_s: &str) -> (e: LeftError) {
        LeftError { inner: LeftErrorKind::NoneError() }
    }
}

impl vstd::std_specs::convert::FromSpecImpl<&str> for LeftError {
    open spec fn obeys_from_spec() -> bool {
        true
    }

    open spec fn from_spec(_s: &str) -> LeftError {
        LeftError { inner: LeftErrorKind::NoneError() }
    }
}

impl From<semver::Error> for LeftError {
    fn from(inner: semver::Error) -> (e: LeftError) {
        LeftError { inner: LeftErrorKind::SemVerError(inner) }
    }
}

impl vstd::std_specs::convert::FromSpecImpl<semver::Error> for LeftError {
    open spec fn obeys_from_spec() -> bool {
        true
    }

    open spec fn from_spec(inner: semver::Error) -> LeftError {
        LeftError { inner: LeftErrorKind::SemVerError(inner) }
    }
}

impl From<url::ParseError> for LeftError {
    fn from(inner: url::ParseError) -> (e: LeftError) {
        LeftError { inner: LeftErrorKind::UrlParseError(inner) }
    }
}

impl vstd::std_specs::convert::FromSpecImpl<url::ParseError> for LeftError {
    open spec fn obeys_from_spec() -> bool {
        true
    }

    open spec fn from_spec(inner: url::ParseError) -> LeftError {
        LeftError { inner: LeftErrorKind::UrlParseError(inner) }
    }
}

} // verus!
