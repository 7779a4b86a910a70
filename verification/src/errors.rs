//! The error taxonomy for account-identifier validation: which rule an
//! identifier broke, together with the identifier itself.

use vstd::prelude::*;

verus! {

/// An error that occurred when validating an invalid account identifier.
#[derive(Eq, Clone, Debug, PartialEq)]
pub struct ParseAccountError(pub(crate) ParseErrorKind, pub(crate) String);

impl ParseAccountError {
    /// The failure kind this error reports.
    pub closed spec fn spec_kind(&self) -> ParseErrorKind {
        self.0
    }

    /// The identifier this error is about.
    pub closed spec fn spec_account_id(&self) -> Seq<char> {
        self.1@
    }

    /// Pack a failure kind together with the identifier it is about.
    pub fn new(kind: ParseErrorKind, account_id: String) -> (e: ParseAccountError)
        ensures
            e.spec_kind() == kind,
            e.spec_account_id() == account_id@,
    {
        ParseAccountError(kind, account_id)
    }

    /// Returns the corresponding `ParseErrorKind` for this error.
    pub fn kind(&self) -> (r: &ParseErrorKind)
        ensures
            r == self.spec_kind(),
    {
        &self.0
    }

    /// Returns the account identifier this error is about.
    pub fn get_account_id(self) -> (r: String)
        ensures
            r@ == self.spec_account_id(),
    {
        self.1
    }

    /// A readable rendering of this error: the identifier in brackets,
    /// followed by the description of the failure kind.
    pub fn message(&self) -> (r: String)
        ensures
            r@ == "["@ + self.spec_account_id() + "]: "@ + self.spec_kind().spec_message(),
    {
        let mut s = "[".to_string();
        s.append(self.1.as_str());
        s.append("]: ");
        let m = self.0.message();
        s.append(m.as_str());
        s
    }
}

/// A list of errors that occur when validating an invalid account identifier.
#[non_exhaustive]
#[derive(Eq, Clone, Debug, PartialEq)]
pub enum ParseErrorKind {
    /// The account identifier was too long.
    TooLong,
    /// The account identifier was too short.
    TooShort,
    /// The account identifier has upper-case characters.
    ///
    /// Example: `Emily.near`, `jemma.Dover.near`.
    HasCapsChars,
    /// The account identifier has separators immediately following each
    /// other.
    ///
    /// Example: `tyrell__wellick.near`.
    HasConsecutiveSeparators,
    /// The account identifier begins or ends with separators.
    ///
    /// Example: `_angela_moss_`.
    HasUnterminatedSeparators,
    /// The account identifier has invalid characters (a non-separating
    /// symbol or a space).
    ///
    /// Example: `user@app.com`.
    HasInvalidChars,
}

impl ParseErrorKind {
    /// Returns `true` if the account identifier was too long.
    pub fn is_too_long(&self) -> (r: bool)
        ensures
            r == (self is TooLong),
    {
        matches!(self, ParseErrorKind::TooLong)
    }

    /// Returns `true` if the account identifier was too short.
    pub fn is_too_short(&self) -> (r: bool)
        ensures
            r == (self is TooShort),
    {
        matches!(self, ParseErrorKind::TooShort)
    }

    /// Returns `true` if the account identifier has upper-case characters.
    pub fn has_caps_chars(&self) -> (r: bool)
        ensures
            r == (self is HasCapsChars),
    {
        matches!(self, ParseErrorKind::HasCapsChars)
    }

    /// Returns `true` if the account identifier has separators immediately
    /// following each other.
    pub fn has_consecutive_separators(&self) -> (r: bool)
        ensures
            r == (self is HasConsecutiveSeparators),
    {
        matches!(self, ParseErrorKind::HasConsecutiveSeparators)
    }

    /// Returns `true` if the account identifier begins or ends with
    /// separators.
    pub fn has_unterminated_separators(&self) -> (r: bool)
        ensures
            r == (self is HasUnterminatedSeparators),
    {
        matches!(self, ParseErrorKind::HasUnterminatedSeparators)
    }

    /// Returns `true` if the account identifier has invalid characters.
    pub fn has_invalid_chars(&self) -> (r: bool)
        ensures
            r == (self is HasInvalidChars),
    {
        matches!(self, ParseErrorKind::HasInvalidChars)
    }

    /// The description of this failure kind, one fixed sentence per kind.
    pub open spec fn spec_message(&self) -> Seq<char> {
        match self {
            ParseErrorKind::TooLong => "the account ID is too long"@,
            ParseErrorKind::TooShort => "the account ID is too short"@,
            ParseErrorKind::HasCapsChars => "the account ID has upper-case characters"@,
            ParseErrorKind::HasConsecutiveSeparators => "the account ID has separators immediately following each other"@,
            ParseErrorKind::HasUnterminatedSeparators => "the account ID begins or ends with a separator"@,
            ParseErrorKind::HasInvalidChars => "the account ID has an invalid format"@,
        }
    }

    /// A readable description of this failure kind.
    pub fn message(&self) -> (r: String)
        ensures
            r@ == self.spec_message(),
    {
        match self {
            ParseErrorKind::TooLong => "the account ID is too long".to_string(),
            ParseErrorKind::TooShort => "the account ID is too short".to_string(),
            ParseErrorKind::HasCapsChars => "the account ID has upper-case characters".to_string(),
            ParseErrorKind::HasConsecutiveSeparators => "the account ID has separators immediately following each other".to_string(),
            ParseErrorKind::HasUnterminatedSeparators => "the account ID begins or ends with a separator".to_string(),
            ParseErrorKind::HasInvalidChars => "the account ID has an invalid format".to_string(),
        }
    }
}

} // verus!
