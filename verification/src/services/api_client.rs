//! What can go wrong between this client and the chat service.

use vstd::prelude::*;

use crate::text::prefixed;

verus! {

/// Why a call to the chat service failed.
#[derive(Debug, PartialEq, Eq)]
pub enum ApiError {
    /// The service could not be reached, or the call timed out.
    Network(String),
    /// A local file could not be read.
    Io(String),
    /// The address is not a valid one.
    Url(String),
    /// The service answered with a status that is not a success.
    Http { status: u16, message: String },
    /// The body of the answer is not what was expected.
    Serialization(String),
}

/// What an [`ApiError`] holds, as mathematical values.
pub enum ApiErrorView {
    Network(Seq<char>),
    Io(Seq<char>),
    Url(Seq<char>),
    Http { status: u16, message: Seq<char> },
    Serialization(Seq<char>),
}

impl View for ApiError {
    type V = ApiErrorView;

    open spec fn view(&self) -> ApiErrorView {
        match self {
            ApiError::Network(message) => ApiErrorView::Network(message@),
            ApiError::Io(message) => ApiErrorView::Io(message@),
            ApiError::Url(message) => ApiErrorView::Url(message@),
            ApiError::Http { status, message } => ApiErrorView::Http {
                status: *status,
                message: message@,
            },
            ApiError::Serialization(message) => ApiErrorView::Serialization(message@),
        }
    }
}

/// The character of a decimal digit.
pub open spec fn digit(value: int) -> char {
    if value == 0 {
        '0'
    } else if value == 1 {
        '1'
    } else if value == 2 {
        '2'
    } else if value == 3 {
        '3'
    } else if value == 4 {
        '4'
    } else if value == 5 {
        '5'
    } else if value == 6 {
        '6'
    } else if value == 7 {
        '7'
    } else if value == 8 {
        '8'
    } else {
        '9'
    }
}

/// A number in decimal, without leading zeros.
pub open spec fn decimal(number: nat) -> Seq<char>
    decreases number,
{
    if number < 10 {
        seq![digit(number as int)]
    } else {
        decimal(number / 10).push(digit((number % 10) as int))
    }
}

/// Appends a number in decimal.
fn append_decimal(text: &mut String, number: u16)
    ensures
        final(text)@ == old(text)@ + decimal(number as nat),
    decreases number,
{
    if number >= 10 {
        append_decimal(text, number / 10);
    }
    let ghost before = text@;
    let last = number % 10;
    proof {
        reveal_strlit("0");
        reveal_strlit("1");
        reveal_strlit("2");
        reveal_strlit("3");
        reveal_strlit("4");
        reveal_strlit("5");
        reveal_strlit("6");
        reveal_strlit("7");
        reveal_strlit("8");
        reveal_strlit("9");
    }
    let written: &str = if last == 0 {
        "0"
    } else if last == 1 {
        "1"
    } else if last == 2 {
        "2"
    } else if last == 3 {
        "3"
    } else if last == 4 {
        "4"
    } else if last == 5 {
        "5"
    } else if last == 6 {
        "6"
    } else if last == 7 {
        "7"
    } else if last == 8 {
        "8"
    } else {
        "9"
    };
    assert(written@ =~= seq![digit(last as int)]);
    text.append(written);
    assert(text@ =~= old(text)@ + decimal(number as nat));
}

impl ApiErrorView {
    /// The error in words.
    pub open spec fn message(self) -> Seq<char> {
        match self {
            ApiErrorView::Network(message) => "network error: "@ + message,
            ApiErrorView::Io(message) => "io error: "@ + message,
            ApiErrorView::Url(message) => "invalid url: "@ + message,
            ApiErrorView::Http { status, message } => "http "@ + decimal(status as nat) + ": "@
                + message,
            ApiErrorView::Serialization(message) => "serialization error: "@ + message,
        }
    }
}

impl ApiError {
    /// The error in words.
    pub fn message(&self) -> (text: String)
        ensures
            text@ == self@.message(),
    {
        match self {
            ApiError::Network(message) => prefixed("network error: ", message.as_str()),
            ApiError::Io(message) => prefixed("io error: ", message.as_str()),
            ApiError::Url(message) => prefixed("invalid url: ", message.as_str()),
            ApiError::Http { status, message } => {
                let mut text = "http ".to_owned();
                append_decimal(&mut text, *status);
                text.append(": ");
                text.append(message.as_str());
                text
            },
            ApiError::Serialization(message) => prefixed(
                "serialization error: ",
                message.as_str(),
            ),
        }
    }
}

} // verus!
