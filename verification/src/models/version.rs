//! Document versions as they are handed out, and the requests that make or change them.

use vstd::prelude::*;

use crate::ident::{Id, Timestamp};
use crate::models::version_state::DocumentVersionState;

verus! {

/// One version of a document, with its place in the document's version graph.
///
/// `updated_at` is the token of optimistic concurrency: a writer presents the
/// value it last read, and is turned away if the version has changed since.
#[derive(Debug)]
pub struct DocumentVersion {
    pub document_id: Id,
    pub version_id: Id,
    pub version_name: String,
    pub created_at: Timestamp,
    pub updated_at: Timestamp,
    pub content: String,
    pub version_state: DocumentVersionState,
    pub children: Vec<Id>,
    pub parents: Vec<Id>,
}

/// What a `DocumentVersion` holds, as plain mathematical values.
pub struct DocumentVersionView {
    pub document_id: Id,
    pub version_id: Id,
    pub version_name: Seq<char>,
    pub created_at: Timestamp,
    pub updated_at: Timestamp,
    pub content: Seq<char>,
    pub version_state: DocumentVersionState,
    pub children: Seq<Id>,
    pub parents: Seq<Id>,
}

impl View for DocumentVersion {
    type V = DocumentVersionView;

    open spec fn view(&self) -> DocumentVersionView {
        DocumentVersionView {
            document_id: self.document_id,
            version_id: self.version_id,
            version_name: self.version_name@,
            created_at: self.created_at,
            updated_at: self.updated_at,
            content: self.content@,
            version_state: self.version_state,
            children: self.children@,
            parents: self.parents@,
        }
    }
}

/// The name and content of a document's first version, or a version's new content.
#[derive(Debug)]
pub struct CreateInitialOrUpdateVersionRequest {
    pub version_name: String,
    pub content: String,
}

/// A version that derives from earlier versions of its document.
#[derive(Debug)]
pub struct CreateVersionWithParentsRequest {
    pub version_name: String,
    pub content: String,
    pub parents: Vec<Id>,
}

/// New content for a version, with the token the writer last read.
#[derive(Debug)]
pub struct UpdateVersion {
    pub content: String,
    pub updated_at: Timestamp,
}

/// A requested lifecycle state, with the token the writer last read.
#[derive(Debug)]
pub struct VersionChangeState {
    pub new_state: DocumentVersionState,
    pub updated_at: Timestamp,
}

/// Whether `c` is a decimal digit as the `regex` crate's class `\d` has it:
/// a character of Unicode's category of decimal numbers.
pub uninterp spec fn unicode_decimal_digit(c: char) -> bool;

/// Asks the `regex` crate whether `c` is a decimal digit, by matching the
/// pattern `^\d$` against the string that holds `c` alone. The answer is a
/// function of the character alone; which characters are digits is left to
/// the tables of `regex`.
#[verifier::external_body]
fn is_unicode_decimal_digit(c: char) -> (digit: bool)
    ensures
        digit == unicode_decimal_digit(c),
{
    match regex::Regex::new(r"^\d$") {
        Ok(pattern) => pattern.is_match(c.encode_utf8(&mut [0u8; 4])),
        Err(_) => false,
    }
}

/// A decimal digit: `0` to `9`, or a decimal digit of another script. Of the
/// ASCII characters only `0` to `9` are digits.
pub open spec fn is_digit(c: char) -> bool {
    if c <= '\u{7f}' {
        '0' <= c <= '9'
    } else {
        unicode_decimal_digit(c)
    }
}

/// Decides whether `c` is a decimal digit.
pub fn is_decimal_digit(c: char) -> (digit: bool)
    ensures
        digit == is_digit(c),
{
    if c <= '\u{7f}' {
        c >= '0' && c <= '9'
    } else {
        is_unicode_decimal_digit(c)
    }
}

/// A version name is dotted numerals: one or more groups of one or more
/// decimal digits, with a single `.` between neighbouring groups, as in `1.2.3`.
pub open spec fn is_version_name(name: Seq<char>) -> bool {
    &&& name.len() > 0
    &&& forall|i: int| 0 <= i < name.len() ==> is_digit(#[trigger] name[i]) || name[i] == '.'
    &&& forall|i: int|
        0 <= i < name.len() && #[trigger] name[i] == '.' ==> 0 < i < name.len() - 1 && is_digit(
            name[i - 1],
        ) && is_digit(name[i + 1])
}

/// Decides whether `name` is a version name.
pub fn is_valid_version_name(name: &str) -> (valid: bool)
    ensures
        valid == is_version_name(name@),
{
    let mut after_digit = false;
    let mut well_formed = true;
    for c in it: name.chars()
        invariant
            it.seq() == name@,
            well_formed ==> forall|k: int|
                0 <= k < it.index() ==> is_digit(#[trigger] name@[k]) || name@[k] == '.',
            well_formed ==> forall|k: int|
                0 <= k < it.index() && #[trigger] name@[k] == '.' ==> 0 < k && is_digit(
                    name@[k - 1],
                ) && (k + 1 < it.index() ==> is_digit(name@[k + 1])),
            well_formed ==> after_digit == (it.index() > 0 && is_digit(name@[it.index() - 1])),
            !well_formed ==> !is_version_name(name@),
    {
        if is_decimal_digit(c) {
            after_digit = true;
        } else if c == '.' && after_digit {
            after_digit = false;
        } else {
            well_formed = false;
        }
    }
    well_formed && after_digit
}

impl CreateInitialOrUpdateVersionRequest {
    /// A request is valid when its version name is.
    pub open spec fn valid(&self) -> bool {
        is_version_name(self.version_name@)
    }

    /// Decides whether the request is valid.
    pub fn validate(&self) -> (valid: bool)
        ensures
            valid == self.valid(),
    {
        is_valid_version_name(self.version_name.as_str())
    }
}

impl CreateVersionWithParentsRequest {
    /// A request is valid when its version name is and it names a parent.
    pub open spec fn valid(&self) -> bool {
        is_version_name(self.version_name@) && self.parents@.len() > 0
    }

    /// Decides whether the request is valid.
    pub fn validate(&self) -> (valid: bool)
        ensures
            valid == self.valid(),
    {
        is_valid_version_name(self.version_name.as_str()) && self.parents.len() > 0
    }
}

} // verus!
