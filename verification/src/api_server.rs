use crate::api_server::errors::Error;
use crate::api_server::errors::Response;
use crate::challenge::CaptchaChallenge;
use crate::errors::Error as NoCaptchaError;
use crate::prediction::Outcome;
use crate::prediction::Prediction;
use crate::registry::CaptchaRegistry;
use vstd::prelude::*;

pub mod errors;

verus! {

/// The ways an image can arrive in a request.
#[derive(Debug)]
pub enum Image {
    /// The image's bytes in Base64, standard alphabet.
    Base64(String),
    /// The image's bytes as they are.
    Bytes(Vec<u8>),
}

/// A request to recognise whether an image shows a challenge.
#[derive(Debug)]
pub struct RecognitionRequest {
    pub challenge: CaptchaChallenge,
    pub image: Image,
}

/// The opaque error of the `base64` crate's decoder.
#[verifier::external_type_specification]
#[verifier::external_body]
pub struct ExDecodeError(base64::DecodeError);

/// The bytes that the `base64` crate's `decode` reads out of a text in the
/// standard alphabet; `None` where it rejects the text.
pub uninterp spec fn base64_decoded(text: Seq<char>) -> Option<Seq<u8>>;

/// `base64::decode`: decodes a text in the standard alphabet. The result is
/// a function of the text alone. The call panics where the text's length
/// plus seven overflows, which `requires` leaves out.
#[verifier::external_body]
fn base64_decode(text: &str) -> (r: std::result::Result<Vec<u8>, base64::DecodeError>)
    requires
        vstd::utf8::encode_utf8(text@).len() + 7 <= usize::MAX,
    ensures
        match r {
            Ok(bytes) => base64_decoded(text@) == Some(bytes@),
            Err(_) => base64_decoded(text@) is None,
        },
{
    base64::decode(text)
}

/// The message sent when an image is not valid Base64.
pub open spec fn invalid_image_message() -> Seq<char> {
    "Invalid image Base64"@
}

/// The message sent when the registry could not answer.
pub open spec fn prediction_failed_message() -> Seq<char> {
    "Prediction failed"@
}

impl Image {
    /// Whether the image is short enough for its decoder's arithmetic.
    pub open spec fn decodable(self) -> bool {
        self matches Image::Base64(text) ==> vstd::utf8::encode_utf8(text@).len() + 7 <= usize::MAX
    }

    /// Whether the image is short enough for its decoder's arithmetic, which
    /// every text that fits in memory is.
    pub fn is_decodable(&self) -> (ok: bool)
        ensures
            ok == self.decodable(),
    {
        match self {
            Image::Base64(text) => text.as_str().as_bytes().len() <= usize::MAX - 7,
            Image::Bytes(_) => true,
        }
    }

    /// The bytes of the image, where it holds any.
    pub open spec fn bytes(self) -> Option<Seq<u8>> {
        match self {
            Image::Base64(text) => base64_decoded(text@),
            Image::Bytes(bytes) => Some(bytes@),
        }
    }

    /// Reads what the decoder returned: the bytes, or the error that tells
    /// the client that its Base64 was malformed. Why the decoder rejected the
    /// text is not passed on.
    pub fn accept_decoded(decoded: std::result::Result<Vec<u8>, base64::DecodeError>) -> (r: Result<
        Vec<u8>,
        Error,
    >)
        ensures
            match r {
                Ok(bytes) => decoded == Ok::<Vec<u8>, base64::DecodeError>(bytes),
                Err(e) => decoded is Err && e.is_generic(invalid_image_message()),
            },
    {
        match decoded {
            Ok(bytes) => Ok(bytes),
            Err(_) => Err(Error::msg("Invalid image Base64")),
        }
    }

    /// The bytes of the image, or the error that tells the client that its
    /// Base64 was malformed.
    pub fn decode(self) -> (r: Result<Vec<u8>, Error>)
        requires
            self.decodable(),
        ensures
            match r {
                Ok(bytes) => self.bytes() == Some(bytes@),
                Err(e) => self.bytes() is None && e.is_generic(invalid_image_message()),
            },
    {
        match self {
            Image::Base64(text) => Self::accept_decoded(base64_decode(text.as_str())),
            Image::Bytes(bytes) => Ok(bytes),
        }
    }
}

/// The answer to a client for what the registry returned: the prediction, or
/// one error that hides why the registry failed.
pub open spec fn answers(
    response: Response<Prediction>,
    prediction: Result<Prediction, NoCaptchaError>,
) -> bool {
    match prediction {
        Ok(p) => response.0 == Ok::<Prediction, Error>(p),
        Err(_) => response.0 matches Err(e) && e.is_generic(prediction_failed_message()),
    }
}

/// Turns what the registry returned into the answer to the client.
pub fn respond(prediction: Result<Prediction, NoCaptchaError>) -> (response: Response<Prediction>)
    ensures
        answers(response, prediction),
{
    match prediction {
        Ok(p) => Response(Ok(p)),
        Err(_) => Response(Err(Error::msg("Prediction failed"))),
    }
}

/// Answers one recognition request.
///
/// `request` is the body of the request, or `None` where the body could not
/// be read as one. The image is decoded and handed, with the challenge, to
/// the registry, which runs the challenge's model through `run`.
pub fn handle_raw_image_upload<M, F: FnOnce(&mut M, Vec<u8>) -> Outcome>(
    registry: &CaptchaRegistry<M>,
    request: Option<RecognitionRequest>,
    run: F,
) -> (response: Response<Prediction>)
    requires
        request matches Some(r) ==> r.image.decodable(),
        forall|model: &mut M, image: Vec<u8>| run.requires((model, image)),
    ensures
        match request {
            None => response.0 matches Err(Error::InvalidRecognitionRequest),
            Some(r) => match r.image.bytes() {
                None => response.0 matches Err(e) && e.is_generic(invalid_image_message()),
                Some(bytes) => exists|image: Vec<u8>, prediction: Result<Prediction, NoCaptchaError>|
                    {
                        &&& image@ == bytes
                        &&& registry.predicts(r.challenge, image, run, prediction)
                        &&& answers(response, prediction)
                    },
            },
        },
{
    let request = match request {
        Some(request) => request,
        None => { return Response(Err(Error::InvalidRecognitionRequest)); },
    };
    let challenge = request.challenge;
    let image = match request.image.decode() {
        Ok(image) => image,
        Err(e) => { return Response(Err(e)); },
    };
    respond(registry.predict(&challenge, image, run))
}

} // verus!
