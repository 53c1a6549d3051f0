use swiss_knife::openai::{
    base_url_or_default, bearer, decode_image, endpoint_url, first_choice, first_image,
    image_request, refusal, AnswerError, ChatMessage, ChatResponse, Choice, Endpoint, ImageData,
    ImageGenerationResponse,
};

#[test]
fn addresses_and_headers() {
    assert_eq!(base_url_or_default(None), "https://api.openai.com/v1");
    assert_eq!(base_url_or_default(Some("http://localhost".to_string())), "http://localhost");
    let base = "https://api.openai.com/v1";
    assert_eq!(
        endpoint_url(base, Endpoint::Transcription),
        "https://api.openai.com/v1/audio/transcriptions"
    );
    assert_eq!(endpoint_url(base, Endpoint::Chat), "https://api.openai.com/v1/chat/completions");
    assert_eq!(
        endpoint_url(base, Endpoint::Image),
        "https://api.openai.com/v1/images/generations"
    );
    assert_eq!(bearer("sk-1"), "Bearer sk-1");
}

#[test]
fn refusals_of_the_service() {
    assert_eq!(
        refusal(Endpoint::Transcription, "500 Internal Server Error", "oops"),
        "API call failed with status 500 Internal Server Error: oops"
    );
    assert_eq!(
        refusal(Endpoint::Chat, "429", "slow"),
        "GPT API call failed with status 429: slow"
    );
    assert_eq!(
        refusal(Endpoint::Image, "400", "bad"),
        "Image generation API call failed with status 400: bad"
    );
}

#[test]
fn the_request_for_one_image() {
    let request = image_request("a cat", "1024x1024");
    assert_eq!(request.model, "gpt-image-1");
    assert_eq!(request.prompt, "a cat");
    assert_eq!(request.n, 1);
    assert_eq!(request.size, "1024x1024");
}

fn choice(content: &str) -> Choice {
    Choice { message: ChatMessage { role: "assistant".to_string(), content: content.to_string() } }
}

#[test]
fn the_first_choice_is_taken() {
    let response = ChatResponse { choices: vec![choice("one"), choice("two")] };
    assert_eq!(first_choice(&response), Ok(&"one".to_string()));
    assert_eq!(first_choice(&ChatResponse { choices: vec![] }), Err(AnswerError::NoChoice));
    assert_eq!(AnswerError::NoChoice.message(), "No response from GPT API");
}

#[test]
fn images_are_decoded_from_base64() {
    assert_eq!(decode_image("aGVsbG8="), Ok(b"hello".to_vec()));
    assert_eq!(decode_image(""), Ok(Vec::new()));
    assert_eq!(decode_image("aGVsbG8"), Err(AnswerError::ImageEncoding));
    assert_eq!(decode_image("a GVsbG8="), Err(AnswerError::ImageEncoding));
    let response = ImageGenerationResponse {
        data: vec![
            ImageData { b64_json: "AQID".to_string() },
            ImageData { b64_json: "BAUG".to_string() },
        ],
    };
    assert_eq!(first_image(&response), Ok(vec![1, 2, 3]));
    assert_eq!(first_image(&ImageGenerationResponse { data: vec![] }), Err(AnswerError::NoImage));
    let broken = ImageGenerationResponse { data: vec![ImageData { b64_json: "!".to_string() }] };
    assert_eq!(first_image(&broken), Err(AnswerError::ImageEncoding));
    assert_eq!(AnswerError::NoImage.message(), "No images returned from API");
    assert_eq!(AnswerError::ImageEncoding.message(), "Failed to decode base64 image data");
}
