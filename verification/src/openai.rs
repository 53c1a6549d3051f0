//! What is exchanged with the text and image service: the requests and
//! answers as plain values, and what is taken from an answer.

use vstd::prelude::*;
use crate::text::{chars_of, push_str, string_of};

verus! {

/// Where the service is reached unless another place is configured.
pub open spec fn default_base_url() -> Seq<char> {
    "https://api.openai.com/v1"@
}

/// The answer to a transcription.
#[derive(Debug, Clone)]
pub struct TranscriptionResponse {
    pub text: String,
}

/// One message of a conversation.
#[derive(Debug, Clone)]
pub struct ChatMessage {
    pub role: String,
    pub content: String,
}

/// The form in which an answer is wanted.
#[derive(Debug, Clone)]
pub struct ResponseFormat {
    pub format_type: String,
}

/// The answer to a conversation.
#[derive(Debug, Clone)]
pub struct ChatResponse {
    pub choices: Vec<Choice>,
}

/// One of the answers offered.
#[derive(Debug, Clone)]
pub struct Choice {
    pub message: ChatMessage,
}

/// The texts made for a video.
#[derive(Debug, Clone)]
pub struct ContentResponse {
    pub titles: Vec<String>,
    pub descriptions: Vec<String>,
    pub status_updates: Vec<String>,
}

/// The request for images.
#[derive(Debug, Clone)]
pub struct ImageGenerationRequest {
    pub model: String,
    pub prompt: String,
    pub n: u32,
    pub size: String,
}

/// The answer to a request for images.
#[derive(Debug, Clone)]
pub struct ImageGenerationResponse {
    pub data: Vec<ImageData>,
}

/// One image, in base64.
#[derive(Debug, Clone)]
pub struct ImageData {
    pub b64_json: String,
}

/// What the service is asked for.
#[derive(Debug, Clone, Copy, PartialEq, Eq, Structural)]
pub enum Endpoint {
    Transcription,
    Chat,
    Image,
}

/// Why nothing could be taken from an answer.
#[derive(Debug, Clone, Copy, PartialEq, Eq, Structural)]
pub enum AnswerError {
    /// The conversation was answered without any choice.
    NoChoice,
    /// The request for images was answered without any image.
    NoImage,
    /// The image is no valid base64.
    ImageEncoding,
}

/// The decoding error of the base64 crate, which is only told from success.
#[verifier::external_type_specification]
#[verifier::external_body]
pub struct ExDecodeError(base64::DecodeError);

/// The bytes that `text` stands for in standard base64 with padding, or
/// `None` where `text` is no such encoding.
pub uninterp spec fn base64_decoded(text: Seq<char>) -> Option<Seq<u8>>;

/// `Engine::decode` of the base64 crate, with its `STANDARD` engine. What it
/// returns depends on the text alone.
#[verifier::external_body]
fn base64_decode(text: &str) -> (result: Result<Vec<u8>, base64::DecodeError>)
    ensures
        match result {
            Ok(bytes) => base64_decoded(text@) == Some(bytes@),
            Err(_) => base64_decoded(text@) is None,
        },
{
    base64::Engine::decode(&base64::engine::general_purpose::STANDARD, text)
}

/// The path of an endpoint below the service's base.
pub open spec fn endpoint_path(endpoint: Endpoint) -> Seq<char> {
    match endpoint {
        Endpoint::Transcription => "/audio/transcriptions"@,
        Endpoint::Chat => "/chat/completions"@,
        Endpoint::Image => "/images/generations"@,
    }
}

/// What is reported when the service refuses a request with `status` and `body`.
pub open spec fn refusal_text(endpoint: Endpoint, status: Seq<char>, body: Seq<char>) -> Seq<char> {
    match endpoint {
        Endpoint::Transcription => "API call failed with status "@ + status + ": "@ + body,
        Endpoint::Chat => "GPT API call failed with status "@ + status + ": "@ + body,
        Endpoint::Image => "Image generation API call failed with status "@ + status + ": "@
            + body,
    }
}

/// The error in words.
pub open spec fn answer_error_text(error: AnswerError) -> Seq<char> {
    match error {
        AnswerError::NoChoice => "No response from GPT API"@,
        AnswerError::NoImage => "No images returned from API"@,
        AnswerError::ImageEncoding => "Failed to decode base64 image data"@,
    }
}

impl AnswerError {
    /// The error in words.
    pub fn message(&self) -> (text: String)
        ensures
            text@ == answer_error_text(*self),
    {
        match self {
            AnswerError::NoChoice => string_of(&chars_of("No response from GPT API")),
            AnswerError::NoImage => string_of(&chars_of("No images returned from API")),
            AnswerError::ImageEncoding => string_of(
                &chars_of("Failed to decode base64 image data"),
            ),
        }
    }
}

/// The address of an endpoint of the service at `base_url`.
pub fn endpoint_url(base_url: &str, endpoint: Endpoint) -> (url: String)
    ensures
        url@ == base_url@ + endpoint_path(endpoint),
{
    let mut out: Vec<char> = Vec::new();
    push_str(&mut out, base_url);
    match endpoint {
        Endpoint::Transcription => push_str(&mut out, "/audio/transcriptions"),
        Endpoint::Chat => push_str(&mut out, "/chat/completions"),
        Endpoint::Image => push_str(&mut out, "/images/generations"),
    }
    assert(Seq::<char>::empty() + base_url@ + endpoint_path(endpoint) =~= base_url@
        + endpoint_path(endpoint));
    string_of(&out)
}

/// The base address: the configured one, or the service's own.
pub fn base_url_or_default(configured: Option<String>) -> (url: String)
    ensures
        url@ == match configured {
            Some(base) => base@,
            None => default_base_url(),
        },
{
    match configured {
        Some(base) => base,
        None => string_of(&chars_of("https://api.openai.com/v1")),
    }
}

/// The value of the header that carries the key.
pub fn bearer(api_key: &str) -> (header: String)
    ensures
        header@ == "Bearer "@ + api_key@,
{
    let mut out: Vec<char> = Vec::new();
    push_str(&mut out, "Bearer ");
    push_str(&mut out, api_key);
    assert(Seq::<char>::empty() + "Bearer "@ + api_key@ =~= "Bearer "@ + api_key@);
    string_of(&out)
}

/// What is reported when the service refuses a request.
pub fn refusal(endpoint: Endpoint, status: &str, body: &str) -> (text: String)
    ensures
        text@ == refusal_text(endpoint, status@, body@),
{
    let mut out: Vec<char> = Vec::new();
    match endpoint {
        Endpoint::Transcription => push_str(&mut out, "API call failed with status "),
        Endpoint::Chat => push_str(&mut out, "GPT API call failed with status "),
        Endpoint::Image => push_str(&mut out, "Image generation API call failed with status "),
    }
    push_str(&mut out, status);
    push_str(&mut out, ": ");
    push_str(&mut out, body);
    assert(Seq::<char>::empty() + refusal_text(endpoint, status@, body@) =~= refusal_text(
        endpoint,
        status@,
        body@,
    ));
    string_of(&out)
}

/// The request for one image of the given size.
pub fn image_request(prompt: &str, size: &str) -> (request: ImageGenerationRequest)
    ensures
        request.model@ == "gpt-image-1"@,
        request.prompt@ == prompt@,
        request.n == 1,
        request.size@ == size@,
{
    ImageGenerationRequest {
        model: string_of(&chars_of("gpt-image-1")),
        prompt: string_of(&chars_of(prompt)),
        n: 1,
        size: string_of(&chars_of(size)),
    }
}

/// The content of the first choice of an answer.
pub fn first_choice(response: &ChatResponse) -> (result: Result<&String, AnswerError>)
    ensures
        response.choices@.len() == 0 ==> result == Err::<&String, AnswerError>(
            AnswerError::NoChoice,
        ),
        response.choices@.len() > 0 ==> result == Ok::<&String, AnswerError>(
            &response.choices@[0].message.content,
        ),
{
    if response.choices.len() == 0 {
        Err(AnswerError::NoChoice)
    } else {
        Ok(&response.choices[0].message.content)
    }
}

/// The bytes of an image given in base64.
pub fn decode_image(b64_json: &str) -> (result: Result<Vec<u8>, AnswerError>)
    ensures
        match base64_decoded(b64_json@) {
            Some(bytes) => result matches Ok(found) && found@ == bytes,
            None => result == Err::<Vec<u8>, AnswerError>(AnswerError::ImageEncoding),
        },
{
    match base64_decode(b64_json) {
        Ok(bytes) => Ok(bytes),
        Err(_) => Err(AnswerError::ImageEncoding),
    }
}

/// The bytes of the first image of an answer.
pub fn first_image(response: &ImageGenerationResponse) -> (result: Result<Vec<u8>, AnswerError>)
    ensures
        response.data@.len() == 0 ==> result == Err::<Vec<u8>, AnswerError>(AnswerError::NoImage),
        response.data@.len() > 0 ==> match base64_decoded(response.data@[0].b64_json@) {
            Some(bytes) => result matches Ok(found) && found@ == bytes,
            None => result == Err::<Vec<u8>, AnswerError>(AnswerError::ImageEncoding),
        },
{
    if response.data.len() == 0 {
        Err(AnswerError::NoImage)
    } else {
        decode_image(response.data[0].b64_json.as_str())
    }
}

} // verus!
