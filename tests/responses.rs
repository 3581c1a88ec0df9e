use oairs::chat::{ChatCompletionChunk, MessagePart, Msg, StreamedChoice};
use oairs::error::{api_error, with_status_code, OairsError, OVERLOADED_MESSAGE};
use oairs::files::PromptCompletion;
use oairs::split::Splitter;
use oairs::tokenizer::Tokenizer;
use std::str::FromStr;

#[test]
fn chunk_to_chat_response() {
    let chunk = ChatCompletionChunk {
        id: "chatcmpl-1".to_string(),
        object: "chat.completion.chunk".to_string(),
        created: 7,
        model: "gpt-3.5-turbo-0301".to_string(),
        choices: vec![StreamedChoice {
            delta: MessagePart { msg: None },
            index: 0,
            finish_reason: Some("stop".to_string()),
        }],
    };
    let prompt = "This is a test string to see how it tokenizes.".to_string();
    let c = chunk.to_chat_response("This is an example".to_string(), prompt.clone()).unwrap();
    assert_eq!(c.input, Some(prompt));
    assert_eq!(c.model, Some("gpt-3.5-turbo-0301".to_string()));
    assert_eq!(c.usage.prompt_tokens, 12);
    assert_eq!(c.usage.completion_tokens, Some(4));
    assert_eq!(c.usage.total_tokens, 16);
    assert_eq!(c.choices.len(), 1);
    assert_eq!(c.choices[0].message, Msg::Assistant("This is an example".to_string()));
    assert_eq!(c.choices[0].finish_reason, Some("stop".to_string()));
}

#[test]
fn prompt_completion_lines() {
    let pc = PromptCompletion::from_str("What is 2+2?\r\nFour\nignored").unwrap();
    assert_eq!(pc.prompt, "What is 2+2?");
    assert_eq!(pc.completion, "Four");
    let pc = PromptCompletion::parse("a\n\n").unwrap();
    assert_eq!((pc.prompt.as_str(), pc.completion.as_str()), ("a", ""));
    let e = PromptCompletion::parse("").unwrap_err();
    assert_eq!(e.message, "Unable to parse prompt from file content.");
    assert_eq!(e.error_type, "Parse Error");
    let e = PromptCompletion::parse("only one line\n").unwrap_err();
    assert_eq!(e.message, "Unable to parse completion from file content.");
    let pc = PromptCompletion::parse("héllo\nwörld\r").unwrap();
    assert_eq!((pc.prompt.as_str(), pc.completion.as_str()), ("héllo", "wörld\r"));
}

#[test]
fn api_errors_by_status() {
    let e = api_error(429, "429 Too Many Requests", "slow down".to_string(), None, None, Some(0), Some("20s".to_string()));
    assert_eq!(e.error_type, "Rate limit reached");
    assert_eq!(e.message, "Rate limit exceeded. API message: slow down");
    assert_eq!(e.param, Some("20s".to_string()));
    assert_eq!(e.code, Some("429 Too Many Requests ".to_string()));
    let e = api_error(429, "429 Too Many Requests", "busy".to_string(), Some("p".to_string()), None, Some(3), None);
    assert_eq!(e.message, format!("{}busy", OVERLOADED_MESSAGE));
    assert_eq!(e.param, Some("p".to_string()));
    let e = api_error(429, "429 Too Many Requests", "x".to_string(), None, Some("rate".to_string()), None, None);
    assert_eq!(e.message, "429 - Rate Limit. API message: x");
    assert_eq!(e.code, Some("429 Too Many Requests rate".to_string()));
    let e = api_error(401, "401 Unauthorized", "Invalid authorization header".to_string(), None, None, None, None);
    assert_eq!(e.error_type, "Authentication");
    assert_eq!(e.message, "Invalid authorization header. Did you forget to enter your API key?");
    let e = api_error(503, "503 Service Unavailable", "down".to_string(), None, None, None, None);
    assert_eq!(e.error_type, "Service Unavailable");
    assert_eq!(e.message, "Service Unavailable. API message: down");
    let e = api_error(404, "404 Not Found", "no model".to_string(), None, None, None, None);
    assert_eq!(e.error_type, "Invalid Request");
    let e = api_error(500, "500 Internal Server Error", "oops".to_string(), None, None, None, None);
    assert_eq!(e.error_type, "Other Error");
    assert_eq!(e.message, "oops");
}

#[test]
fn status_code_fills_missing_code() {
    let e = OairsError { message: "m".to_string(), error_type: "t".to_string(), param: None, code: None };
    assert_eq!(with_status_code(e.clone(), "400".to_string()).code, Some("400".to_string()));
    let coded = OairsError { code: Some("bad".to_string()), ..e };
    assert_eq!(with_status_code(coded.clone(), "400".to_string()), coded);
}

#[test]
fn splitter_spans() {
    let s = Splitter::new("[a-z]+").unwrap();
    assert_eq!(s.spans(b"ab, cd"), vec![(0, 2), (4, 6)]);
    assert_eq!(s.spans(b"\xff\xfe"), vec![]);
    assert!(Splitter::new("(").is_none());
}

#[test]
fn encoding_names() {
    assert_eq!(Tokenizer::from_encoding_name("p50k_edit"), Some(Tokenizer::P50KEdit));
    assert_eq!(Tokenizer::from_encoding_name("gpt2"), None);
}
