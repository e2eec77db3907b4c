use crate::errors::Error as NoCaptchaError;
use vstd::prelude::*;
use vstd::std_specs::convert::FromSpecImpl;

verus! {

/// Why a recognition request was not answered with a prediction.
#[derive(Debug)]
pub enum Error {
    /// The body of the request could not be read as a recognition request.
    InvalidRecognitionRequest,
    /// Any other failure that the client is told of, with a message.
    Generic(String),
    /// A failure of the operating system; its detail is not sent out.
    IOError(std::io::Error),
    /// A failure of the registry; its detail is not sent out.
    NoCAPTCHA(NoCaptchaError),
}

pub type Result<T, E = Error> = std::result::Result<T, E>;

/// The answer to a request: what it carries on success, or the error.
pub struct Response<T>(pub Result<T>);

/// The status that a successful answer is sent with.
pub const STATUS_OK: u16 = 200;

/// The status that every failure is sent with.
pub const STATUS_ERROR: u16 = 500;

impl Error {
    /// The tag that names the error to the client. Only a malformed request
    /// has a tag of its own: every other failure is sent as `generic`.
    pub open spec fn wire_tag(self) -> Seq<char> {
        match self {
            Error::InvalidRecognitionRequest => "invalid_recognition_request"@,
            _ => "generic"@,
        }
    }

    /// The detail sent beside the tag: the message of a `Generic` error, and
    /// nothing for the others.
    pub open spec fn wire_meta(self) -> Option<Seq<char>> {
        match self {
            Error::Generic(message) => Some(message@),
            _ => None,
        }
    }

    /// Whether the error is a `Generic` one with exactly this message.
    pub open spec fn is_generic(self, text: Seq<char>) -> bool {
        self matches Error::Generic(message) && message@ == text
    }

    /// A `Generic` error with the given message.
    pub fn msg(source: &str) -> (e: Error)
        ensures
            e.is_generic(source@),
    {
        Error::Generic(source.to_owned())
    }

    /// The tag that names the error to the client.
    pub fn tag(&self) -> (t: &'static str)
        ensures
            t@ == self.wire_tag(),
    {
        match self {
            Error::InvalidRecognitionRequest => "invalid_recognition_request",
            _ => "generic",
        }
    }

    /// The detail sent beside the tag, where there is one.
    pub fn meta(&self) -> (m: Option<&str>)
        ensures
            match m {
                Some(text) => self.wire_meta() == Some(text@),
                None => self.wire_meta() is None,
            },
    {
        match self {
            Error::Generic(message) => Some(message.as_str()),
            _ => None,
        }
    }
}

impl<T> Response<T> {
    /// The status code that the answer is sent with.
    pub open spec fn wire_status(self) -> u16 {
        match self.0 {
            Ok(_) => STATUS_OK,
            Err(_) => STATUS_ERROR,
        }
    }

    /// The status code that the answer is sent with.
    pub fn status(&self) -> (code: u16)
        ensures
            code == self.wire_status(),
    {
        match &self.0 {
            Ok(_) => STATUS_OK,
            Err(_) => STATUS_ERROR,
        }
    }
}

impl From<NoCaptchaError> for Error {
    fn from(error: NoCaptchaError) -> (e: Error) {
        Error::NoCAPTCHA(error)
    }
}

impl FromSpecImpl<NoCaptchaError> for Error {
    open spec fn obeys_from_spec() -> bool {
        true
    }

    open spec fn from_spec(error: NoCaptchaError) -> Error {
        Error::NoCAPTCHA(error)
    }
}

impl From<std::io::Error> for Error {
    fn from(error: std::io::Error) -> (e: Error) {
        Error::IOError(error)
    }
}

impl FromSpecImpl<std::io::Error> for Error {
    open spec fn obeys_from_spec() -> bool {
        true
    }

    open spec fn from_spec(error: std::io::Error) -> Error {
        Error::IOError(error)
    }
}

impl<T> From<Result<T>> for Response<T> {
    fn from(result: Result<T>) -> (response: Response<T>) {
        Response(result)
    }
}

impl<T> FromSpecImpl<Result<T>> for Response<T> {
    open spec fn obeys_from_spec() -> bool {
        true
    }

    open spec fn from_spec(result: Result<T>) -> Response<T> {
        Response(result)
    }
}

} // verus!
