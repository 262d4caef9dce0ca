//! The error of every operation of the client.

use crate::text::{decimal, decimal_text, joined};
use vstd::prelude::*;
use vstd::string::*;

verus! {

broadcast use vstd::string::group_string_axioms;

/// What can go wrong. The parts that come from elsewhere are kept as their messages.
#[derive(Debug)]
pub enum MessageBoxError {
    /// The wallet refused or failed.
    Wallet(String),
    /// Authentication failed, or the server answered with an error.
    Auth(String),
    /// The server answered with a status outside the successful range, at this address.
    Http(u16, String),
    /// A body could not be encrypted or decrypted.
    Encryption(String),
    /// A text is not the JSON that was expected.
    Json(String),
    /// A response lacks this header.
    MissingHeader(String),
    /// The client was not initialized.
    NotInitialized,
    /// An overlay operation failed.
    Overlay(String),
    /// The live connection failed.
    WebSocket(String),
    /// A request is not acceptable.
    Validation(String),
}

/// The contents of a `MessageBoxError`.
#[verifier::ext_equal]
pub enum ErrorModel {
    Wallet(Seq<char>),
    Auth(Seq<char>),
    Http(u16, Seq<char>),
    Encryption(Seq<char>),
    Json(Seq<char>),
    MissingHeader(Seq<char>),
    NotInitialized,
    Overlay(Seq<char>),
    WebSocket(Seq<char>),
    Validation(Seq<char>),
}

impl View for MessageBoxError {
    type V = ErrorModel;

    open spec fn view(&self) -> ErrorModel {
        match self {
            MessageBoxError::Wallet(s) => ErrorModel::Wallet(s@),
            MessageBoxError::Auth(s) => ErrorModel::Auth(s@),
            MessageBoxError::Http(n, s) => ErrorModel::Http(*n, s@),
            MessageBoxError::Encryption(s) => ErrorModel::Encryption(s@),
            MessageBoxError::Json(s) => ErrorModel::Json(s@),
            MessageBoxError::MissingHeader(s) => ErrorModel::MissingHeader(s@),
            MessageBoxError::NotInitialized => ErrorModel::NotInitialized,
            MessageBoxError::Overlay(s) => ErrorModel::Overlay(s@),
            MessageBoxError::WebSocket(s) => ErrorModel::WebSocket(s@),
            MessageBoxError::Validation(s) => ErrorModel::Validation(s@),
        }
    }
}

impl ErrorModel {
    /// The error in words.
    pub open spec fn text(self) -> Seq<char> {
        match self {
            ErrorModel::Wallet(s) => "wallet error: "@ + s,
            ErrorModel::Auth(s) => "auth error: "@ + s,
            ErrorModel::Http(n, s) => "HTTP error: status "@ + decimal_text(n as nat) + " from "@
                + s,
            ErrorModel::Encryption(s) => "encryption error: "@ + s,
            ErrorModel::Json(s) => "JSON parse error: "@ + s,
            ErrorModel::MissingHeader(s) => "missing header: "@ + s,
            ErrorModel::NotInitialized => "not initialized"@,
            ErrorModel::Overlay(s) => "overlay error: "@ + s,
            ErrorModel::WebSocket(s) => "websocket error: "@ + s,
            ErrorModel::Validation(s) => "validation error: "@ + s,
        }
    }
}

impl MessageBoxError {
    /// The error in words.
    pub fn to_text(&self) -> (r: String)
        ensures
            r@ == self@.text(),
    {
        match self {
            MessageBoxError::Wallet(s) => joined("wallet error: ", s.as_str()),
            MessageBoxError::Auth(s) => joined("auth error: ", s.as_str()),
            MessageBoxError::Http(n, s) => {
                let mut r = joined("HTTP error: status ", decimal(*n as u64).as_str());
                r.append(" from ");
                r.append(s.as_str());
                r
            },
            MessageBoxError::Encryption(s) => joined("encryption error: ", s.as_str()),
            MessageBoxError::Json(s) => joined("JSON parse error: ", s.as_str()),
            MessageBoxError::MissingHeader(s) => joined("missing header: ", s.as_str()),
            MessageBoxError::NotInitialized => "not initialized".to_owned(),
            MessageBoxError::Overlay(s) => joined("overlay error: ", s.as_str()),
            MessageBoxError::WebSocket(s) => joined("websocket error: ", s.as_str()),
            MessageBoxError::Validation(s) => joined("validation error: ", s.as_str()),
        }
    }
}

/// An error in words ends with what went wrong, as it was told, and one of a server tells its status
/// code before that.
pub proof fn errors_end_with_what_went_wrong(n: u16, s: Seq<char>)
    ensures
        s.is_suffix_of(ErrorModel::Wallet(s).text()),
        s.is_suffix_of(ErrorModel::Auth(s).text()),
        (decimal_text(n as nat) + " from "@ + s).is_suffix_of(ErrorModel::Http(n, s).text()),
        s.is_suffix_of(ErrorModel::Encryption(s).text()),
        s.is_suffix_of(ErrorModel::Json(s).text()),
        s.is_suffix_of(ErrorModel::MissingHeader(s).text()),
        s.is_suffix_of(ErrorModel::Overlay(s).text()),
        s.is_suffix_of(ErrorModel::WebSocket(s).text()),
        s.is_suffix_of(ErrorModel::Validation(s).text()),
{
    assert(ErrorModel::Http(n, s).text() =~= "HTTP error: status "@ + (decimal_text(n as nat)
        + " from "@ + s));
}

} // verus!
