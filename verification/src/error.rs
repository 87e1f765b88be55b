//! Why a request is refused, and the message that says so.

use vstd::prelude::*;
use vstd::string::StringExecFns;

verus! {

/// One of the two measurements of a request.
#[derive(Clone, Copy, Debug, PartialEq, Eq, Structural)]
pub enum Field {
    /// Air temperature, in degrees Celsius.
    T,
    /// Relative humidity, in percent.
    Rh,
}

/// The side on which a measurement left its domain.
#[derive(Clone, Copy, Debug, PartialEq, Eq, Structural)]
pub enum Bound {
    High,
    Low,
}

/// The shape of the request path.
#[derive(Clone, Copy, Debug, PartialEq, Eq, Structural)]
pub enum Grammar {
    /// `/{t}/{rh}`
    Plain,
    /// `/dewpoint/{t}/{rh}`
    Dewpoint,
}

/// Why a request is refused.
#[derive(Clone, Debug, PartialEq, Eq)]
pub enum RequestError {
    /// The line does not start with `GET /dewpoint/`.
    WrongRoute,
    /// The path has no segment for the temperature or for the humidity.
    MissingField { grammar: Grammar },
    /// A segment is no number; `raw` is the segment as it was received.
    InvalidNumber { field: Field, raw: String },
    /// A measurement lies outside its domain; `shown` is its decimal form.
    OutOfRange { field: Field, bound: Bound, shown: String },
}

/// A `RequestError` with its texts as sequences of characters.
pub enum ErrorModel {
    WrongRoute,
    MissingField { grammar: Grammar },
    InvalidNumber { field: Field, raw: Seq<char> },
    OutOfRange { field: Field, bound: Bound, shown: Seq<char> },
}

impl View for RequestError {
    type V = ErrorModel;

    open spec fn view(&self) -> ErrorModel {
        match self {
            RequestError::WrongRoute => ErrorModel::WrongRoute,
            RequestError::MissingField { grammar } => ErrorModel::MissingField {
                grammar: *grammar,
            },
            RequestError::InvalidNumber { field, raw } => ErrorModel::InvalidNumber {
                field: *field,
                raw: raw@,
            },
            RequestError::OutOfRange { field, bound, shown } => ErrorModel::OutOfRange {
                field: *field,
                bound: *bound,
                shown: shown@,
            },
        }
    }
}

impl Field {
    /// The name of the measurement in messages.
    pub open spec fn label(self) -> Seq<char> {
        match self {
            Field::T => "t"@,
            Field::Rh => "rh"@,
        }
    }

    /// The name of the measurement in messages.
    pub fn name(self) -> (s: &'static str)
        ensures
            s@ == self.label(),
    {
        match self {
            Field::T => "t",
            Field::Rh => "rh",
        }
    }
}

/// The limit of a measurement's domain on one side, as messages show it.
pub open spec fn limit_label(field: Field, bound: Bound) -> Seq<char> {
    match (field, bound) {
        (Field::T, Bound::High) => "80"@,
        (Field::T, Bound::Low) => "-40"@,
        (Field::Rh, Bound::High) => "100"@,
        (Field::Rh, Bound::Low) => "0"@,
    }
}

/// The limit of a measurement's domain on one side, as messages show it.
pub fn limit_name(field: Field, bound: Bound) -> (s: &'static str)
    ensures
        s@ == limit_label(field, bound),
{
    match (field, bound) {
        (Field::T, Bound::High) => "80",
        (Field::T, Bound::Low) => "-40",
        (Field::Rh, Bound::High) => "100",
        (Field::Rh, Bound::Low) => "0",
    }
}

impl ErrorModel {
    /// The message of the error.
    pub open spec fn message(self) -> Seq<char> {
        match self {
            ErrorModel::WrongRoute => "Only GET to /dewpoint is allowed!"@,
            ErrorModel::MissingField { grammar: Grammar::Plain } =>
                "t or rh is missing! Request must be /{t}/{rh}"@,
            ErrorModel::MissingField { grammar: Grammar::Dewpoint } =>
                "t or rh is missing! Request must be /dewpoint/{t}/{rh}"@,
            ErrorModel::InvalidNumber { field, raw } => "Cannot convert "@ + field.label()
                + " to a float! Got '"@ + raw + "'!"@,
            ErrorModel::OutOfRange { field, bound: Bound::High, shown } => field.label()
                + " is too high! Got '"@ + shown + "'! Max allowed "@ + field.label() + " is "@
                + limit_label(field, Bound::High) + "!"@,
            ErrorModel::OutOfRange { field, bound: Bound::Low, shown } => field.label()
                + " is too low! Got '"@ + shown + "'! Min allowed "@ + field.label() + " is "@
                + limit_label(field, Bound::Low) + "!"@,
        }
    }
}

impl RequestError {
    /// Renders the message of the error.
    pub fn message(&self) -> (text: String)
        ensures
            text@ == self@.message(),
    {
        match self {
            RequestError::WrongRoute => String::from_str("Only GET to /dewpoint is allowed!"),
            RequestError::MissingField { grammar: Grammar::Plain } => String::from_str(
                "t or rh is missing! Request must be /{t}/{rh}",
            ),
            RequestError::MissingField { grammar: Grammar::Dewpoint } => String::from_str(
                "t or rh is missing! Request must be /dewpoint/{t}/{rh}",
            ),
            RequestError::InvalidNumber { field, raw } => {
                let mut text = String::from_str("Cannot convert ");
                text.append(field.name());
                text.append(" to a float! Got '");
                text.append(raw.as_str());
                text.append("'!");
                text
            },
            RequestError::OutOfRange { field, bound, shown } => {
                let mut text = String::from_str(field.name());
                match bound {
                    Bound::High => {
                        text.append(" is too high! Got '");
                        text.append(shown.as_str());
                        text.append("'! Max allowed ");
                    },
                    Bound::Low => {
                        text.append(" is too low! Got '");
                        text.append(shown.as_str());
                        text.append("'! Min allowed ");
                    },
                }
                text.append(field.name());
                text.append(" is ");
                text.append(limit_name(*field, *bound));
                text.append("!");
                text
            },
        }
    }

    /// The status code that answers a refused request.
    pub fn status_code(&self) -> (code: i32)
        ensures
            code == 400,
    {
        400
    }
}

} // verus!
