//! What can go wrong while a session is written or played.

use crate::text::{join, joined};
use vstd::prelude::*;
use vstd::string::*;

verus! {

/// A failure of the recorder, of the search for the script or of the playback.
#[derive(Debug, PartialEq, Eq)]
pub enum MendaxError {
    /// A look option that does not exist. `expected` lists the ones that do.
    UnknownField { field: String, expected: Vec<String> },
    /// A look option whose value has the wrong type.
    MismatchedType { expecting: String, actual: String },
    /// A command was to be run, and the session may not run any.
    SystemForbidden,
    /// The operator interrupted the playback.
    KeyboardInterrupt,
    /// A screen was opened inside a screen.
    NestedScreens,
    /// The script exists under its name both with and without the extension.
    AmbiguousSource { f1: String, f2: String },
    /// The script exists under neither name.
    NoSuchSource { stem: String },
    /// A tag name was used before.
    DuplicateTag { name: String },
    /// A tag name that is empty or stands for a command of the jump prompt.
    InvalidTagName { name: String },
    /// The recorder was called while another call held it.
    LieInUse,
}

/// The view of a [`MendaxError`].
pub enum ErrorView {
    UnknownField { field: Seq<char>, expected: Seq<Seq<char>> },
    MismatchedType { expecting: Seq<char>, actual: Seq<char> },
    SystemForbidden,
    KeyboardInterrupt,
    NestedScreens,
    AmbiguousSource { f1: Seq<char>, f2: Seq<char> },
    NoSuchSource { stem: Seq<char> },
    DuplicateTag { name: Seq<char> },
    InvalidTagName { name: Seq<char> },
    LieInUse,
}

impl DeepView for MendaxError {
    type V = ErrorView;

    open spec fn deep_view(&self) -> ErrorView {
        match self {
            MendaxError::UnknownField { field, expected } => ErrorView::UnknownField {
                field: field@,
                expected: expected.deep_view(),
            },
            MendaxError::MismatchedType { expecting, actual } => ErrorView::MismatchedType {
                expecting: expecting@,
                actual: actual@,
            },
            MendaxError::SystemForbidden => ErrorView::SystemForbidden,
            MendaxError::KeyboardInterrupt => ErrorView::KeyboardInterrupt,
            MendaxError::NestedScreens => ErrorView::NestedScreens,
            MendaxError::AmbiguousSource { f1, f2 } => ErrorView::AmbiguousSource {
                f1: f1@,
                f2: f2@,
            },
            MendaxError::NoSuchSource { stem } => ErrorView::NoSuchSource { stem: stem@ },
            MendaxError::DuplicateTag { name } => ErrorView::DuplicateTag { name: name@ },
            MendaxError::InvalidTagName { name } => ErrorView::InvalidTagName { name: name@ },
            MendaxError::LieInUse => ErrorView::LieInUse,
        }
    }
}

/// The text that `{:?}` gives for a string: the string between double quotes,
/// with the characters escaped that cannot stand there as they are.
pub uninterp spec fn debug_quoted(s: Seq<char>) -> Seq<char>;

/// Formats a string with `{:?}`, that is by `<str as Debug>::fmt`. The result
/// depends on the characters of the string alone.
#[verifier::external_body]
fn quote(s: &str) -> (quoted: String)
    ensures
        quoted@ == debug_quoted(s@),
{
    format!("{:?}", s)
}

/// The message of an error.
pub open spec fn message(e: ErrorView) -> Seq<char> {
    match e {
        ErrorView::UnknownField { field, expected } => "unknown field "@ + debug_quoted(field)
            + ", expected one of: "@ + joined(expected, ", "@),
        ErrorView::MismatchedType { expecting, actual } => "Data type incorrect: "@ + actual
            + " (expecting "@ + expecting + ")"@,
        ErrorView::SystemForbidden => "system calls are forbidden at this sandbox level"@,
        ErrorView::KeyboardInterrupt => "^C"@,
        ErrorView::NestedScreens => "cannot nest screens"@,
        ErrorView::AmbiguousSource { f1, f2 } => "ambiguous source: both "@ + f1 + " and "@ + f2
            + " exist"@,
        ErrorView::NoSuchSource { stem } => "could not read file '"@ + stem + "' or '"@ + stem
            + ".rhai'"@,
        ErrorView::DuplicateTag { name } => "tag '"@ + name + "' defined multiple times"@,
        ErrorView::InvalidTagName { name } => "tag '"@ + name + "' is reserved"@,
        ErrorView::LieInUse => "lie in use"@,
    }
}

impl MendaxError {
    /// The message of this error, as it is shown to the user.
    pub fn to_string(&self) -> (text: String)
        ensures
            text@ == message(self.deep_view()),
    {
        match self {
            MendaxError::UnknownField { field, expected } => {
                let mut text = String::from_str("unknown field ");
                let quoted: String = quote(field.as_str());
                text.append(quoted.as_str());
                text.append(", expected one of: ");
                let list: String = join(expected, ", ");
                text.append(list.as_str());
                text
            },
            MendaxError::MismatchedType { expecting, actual } => {
                let mut text = String::from_str("Data type incorrect: ");
                text.append(actual.as_str());
                text.append(" (expecting ");
                text.append(expecting.as_str());
                text.append(")");
                text
            },
            MendaxError::SystemForbidden => String::from_str(
                "system calls are forbidden at this sandbox level",
            ),
            MendaxError::KeyboardInterrupt => String::from_str("^C"),
            MendaxError::NestedScreens => String::from_str("cannot nest screens"),
            MendaxError::AmbiguousSource { f1, f2 } => {
                let mut text = String::from_str("ambiguous source: both ");
                text.append(f1.as_str());
                text.append(" and ");
                text.append(f2.as_str());
                text.append(" exist");
                text
            },
            MendaxError::NoSuchSource { stem } => {
                let mut text = String::from_str("could not read file '");
                text.append(stem.as_str());
                text.append("' or '");
                text.append(stem.as_str());
                text.append(".rhai'");
                text
            },
            MendaxError::DuplicateTag { name } => {
                let mut text = String::from_str("tag '");
                text.append(name.as_str());
                text.append("' defined multiple times");
                text
            },
            MendaxError::InvalidTagName { name } => {
                let mut text = String::from_str("tag '");
                text.append(name.as_str());
                text.append("' is reserved");
                text
            },
            MendaxError::LieInUse => String::from_str("lie in use"),
        }
    }
}

} // verus!
