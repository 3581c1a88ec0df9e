use oairs::chat::{ChatChoice, ChatCompletion, LogProbs, LogitBias, Messages, Msg, Role, Usage};
use oairs::client::Client;
use oairs::error::{ErrorType, OairsError};
use oairs::files::{FileInfo, FineTuneFC, Purpose};
use oairs::images::{ImageBuilder, ImageSize, ResponseFormat};
use oairs::model_enums::{ChatModel, CompletionModel, EmbeddingModel, FineTuneModel, ModerationModel};
use std::str::FromStr;

fn completion(messages: Vec<Msg>) -> ChatCompletion {
    ChatCompletion {
        input: None,
        id: "id".to_string(),
        object: "chat.completion".to_string(),
        created: 1,
        model: None,
        choices: messages
            .into_iter()
            .enumerate()
            .map(|(i, message)| ChatChoice { index: i as u8, message, finish_reason: None })
            .collect(),
        usage: Usage { prompt_tokens: 1, completion_tokens: Some(2), total_tokens: 3 },
    }
}

#[test]
fn roles_from_slices() {
    assert_eq!(Role::from_slice(b"{\"role\":\"assistant\"}"), Ok(Role::Assistant));
    assert_eq!(Role::from_slice(b"system"), Ok(Role::System));
    assert_eq!(Role::from_slice(b"{\"role\":\"user\"}"), Ok(Role::User));
    assert!(Role::from_slice(b"narrator").is_err());
    assert_eq!(Role::default(), Role::System);
    assert_eq!(Role::User.to_str(), "user");
}

#[test]
fn message_accessors() {
    let mut m = Msg::Response { role: Role::Assistant, content: "old".to_string() };
    assert_eq!(m.role(), Role::Assistant);
    assert_eq!(m.role_as_str(), "assistant");
    m.set_content("new".to_string());
    assert_eq!(m, Msg::Response { role: Role::Assistant, content: "new".to_string() });
    let mut u = Msg::User("hi".to_string());
    u.set_content("bye".to_string());
    assert_eq!(u.content(), "bye");
    assert_eq!(u.role(), Role::User);
}

#[test]
fn message_tokens() {
    let m = Msg::User("This is a test string to see how it tokenizes.".to_string());
    assert_eq!(m.tokens().unwrap(), vec![2028, 374, 264, 1296, 925, 311, 1518, 1268, 433, 4037, 4861, 13]);
}

#[test]
fn conversation() {
    let mut msgs = Messages::new(vec![Msg::System("be brief".to_string())]);
    assert!(!msgs.is_empty());
    msgs.push(Msg::User("hello".to_string()));
    msgs.push_response(&completion(vec![Msg::Assistant("hi".to_string()), Msg::Assistant("hey".to_string())]));
    assert_eq!(msgs.len(), 4);
    assert_eq!(msgs.data()[3], Msg::Assistant("hey".to_string()));
    msgs.clear();
    assert!(msgs.is_empty());
}

#[test]
fn completion_messages() {
    let c = completion(vec![Msg::Assistant("a".to_string()), Msg::Assistant("b".to_string())]);
    assert_eq!(c.response_message(), Msg::Assistant("a".to_string()));
    assert_eq!(c.get_messages().len(), 2);
}

#[test]
fn client_requests() {
    let client = Client::new("sk-test");
    assert_eq!(client.key(), "Bearer sk-test");
    assert_eq!(client.url(), None);
    let files = client.list_files();
    assert_eq!(files.url(), Some("https://api.openai.com/v1/files"));
    let model = client.retrieve_model(&ChatModel::Gpt4);
    assert_eq!(model.url(), Some("https://api.openai.com/v1/models/gpt-4"));
    let upload = client.upload_file("data.jsonl".to_string(), Purpose::FineTune);
    assert_eq!(upload.upload(), Some(("data.jsonl", Purpose::FineTune)));
    let content = client.retrieve_file_content("file-1");
    assert_eq!(content.url(), Some("https://api.openai.com/v1/files/file-1/content"));
    let cancel = client.cancel_fine_tune("ft-1");
    assert_eq!(cancel.url(), Some("https://api.openai.com/v1/fine-tunes/ft-1/cancel"));
    assert_eq!(cancel.key(), "Bearer sk-test");
}

#[test]
fn image_builder() {
    let mut b = ImageBuilder::create_image("key", "a cat".to_string());
    b.n(2).size(ImageSize::Small).response_format(ResponseFormat::Base64);
    assert_eq!(b.url(), "https://api.openai.com/v1/images/generations");
    assert_eq!(b.request().n, Some(2));
    assert_eq!(b.request().size, Some(ImageSize::Small));
    assert_eq!(b.request().prompt, Some("a cat".to_string()));
    assert_eq!(ImageSize::default().to_str(), "1024x1024");
    assert_eq!(ResponseFormat::Base64.to_str(), "b64_json");
    let v = ImageBuilder::create_variation("key", "img.png".to_string());
    assert_eq!(v.url(), "https://api.openai.com/v1/images/variations");
    assert_eq!(v.data().image, "img.png");
}

#[test]
fn model_names() {
    assert_eq!(ChatModel::from_str("gpt-4-0314"), Ok(ChatModel::Gpt40314));
    assert_eq!(CompletionModel::from_name("ada").unwrap(), CompletionModel::Ada);
    let err = EmbeddingModel::from_name("nope").unwrap_err();
    assert_eq!(err.error_type, "Deserialization Error");
    assert_eq!(err.message, "No EmbeddingModel variant: nope");
    assert_eq!(ModerationModel::default().to_str(), "text-moderation-latest");
    assert_eq!(FineTuneModel::default().to_str(), "davinci");
}

#[test]
fn errors_and_small_types() {
    let e = OairsError::new("m".to_string(), ErrorType::RateLimit, None, Some("429".to_string()));
    assert_eq!(e.error_type, "Rate limit reached");
    assert_eq!(ErrorType::Tokenizer.to_str(), "Tokenizer Error");
    assert_eq!(LogProbs::Three.to_int(), 3);
    let bias = LogitBias::new(9703, -100);
    assert_eq!((bias.token, bias.value), (9703, -100));
    assert_eq!(Purpose::FineTune.to_str(), "fine-tune");
    assert!(FineTuneFC::new().data.is_empty());
    let info = FileInfo {
        object: "file".to_string(),
        id: "file-9".to_string(),
        purpose: "fine-tune".to_string(),
        filename: "f.jsonl".to_string(),
        bytes: 10,
        created_at: 0,
        status: "uploaded".to_string(),
        status_destails: None,
    };
    assert_eq!(info.id(), "file-9");
}

#[test]
fn message_texts() {
    let msgs = Messages::new(vec![
        Msg::System("be brief".to_string()),
        Msg::Response { role: Role::User, content: "hi".to_string() },
    ]);
    assert_eq!(msgs.data()[0].to_string(), "system: be brief");
    assert_eq!(msgs.to_string(), "[system: be brief, user: hi,]");
    assert_eq!(Messages::new(vec![]).to_string(), "[]");
    assert_eq!(Role::Assistant.to_string(), "assistant");
}

#[test]
fn attach_message_tokens() {
    let mut msgs = Messages::new(vec![Msg::User("This is an example".to_string()), Msg::System("".to_string())]);
    msgs.attach_tokens().unwrap();
    assert_eq!(msgs.tokens().len(), 2);
    assert_eq!(msgs.tokens()[0].len(), 4);
    assert!(msgs.tokens()[1].is_empty());
    assert_eq!(msgs.len(), 2);
}

#[test]
fn message_from_text() {
    assert_eq!(Msg::from_str("user, \"Hello\"}"), Ok(Msg::User("Hello".to_string())));
    assert_eq!(
        Msg::parse("\"assistant\": x,  \"Hi there\"} "),
        Ok(Msg::Assistant("Hi there".to_string()))
    );
    assert_eq!(
        Msg::parse("{\"role\": \"user\", \"content\": \"Hello\"}"),
        Err("{\"role\" is not a valid role".to_string())
    );
    assert_eq!(Msg::parse("no comma"), Err("No content found".to_string()));
    assert_eq!(Msg::parse("user, ab"), Err("No content found".to_string()));
    assert_eq!(Role::from_str("system"), Ok(Role::System));
    assert!(Role::from_str("robot").is_err());
}

#[test]
fn role_from_slice_error_names_the_bytes() {
    assert_eq!(Role::from_slice(b"ab\x07"), Err("[97, 98, 7] is not a valid role".to_string()));
    assert_eq!(Role::from_slice(b""), Err("[] is not a valid role".to_string()));
    assert_eq!(Role::from_slice(&[255, 100]), Err("[255, 100] is not a valid role".to_string()));
}

#[test]
fn client_request_fields() {
    let client = Client::new("k");
    assert_eq!(client.upload(), None);
    let cancel = client.cancel_fine_tune("ft-2");
    assert_eq!(cancel.upload(), None);
}
