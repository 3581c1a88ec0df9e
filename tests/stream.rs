use oairs::stream::{nom_chat_completion_chunk, nom_content, nom_is_done};

fn no_delta<'a>() -> &'a [u8; 406] {
    b"data: {\"id\":\"chatcmpl-6sHKShQDKQCki9wzsdyALS3ublOkh\",\"object\":\"chat.completion.chunk\",\"created\":1678394344,\"model\":\"gpt-3.5-turbo-0301\",\"choices\":[{\"delta\":{},\"index\":0,\"finish_reason\":\"stop\"}]}\n\ndata: {\"id\":\"chatcmpl-6sHKShQDKQCki9wzsdyALS3ublOkh\",\"object\":\"chat.completion.chunk\",\"created\":1678394344,\"model\":\"gpt-3.5-turbo-0301\",\"choices\":[{\"delta\":{},\"index\":0,\"finish_reason\":\"stop\"}]}\n\ndata: [DONE]\n\n"
}

fn some_delta<'a>() -> &'a [u8; 423] {
    b"data: {\"id\":\"chatcmpl-6sKy7POpwtespFLK7OTQCCwNeRIZv\",\"object\":\"chat.completion.chunk\",\"created\":1678408335,\"model\":\"gpt-3.5-turbo-0301\",\"choices\":[{\"delta\":{\"role\":\"assistant\"},\"index\":0,\"finish_reason\":null}]}\n\ndata: {\"id\":\"chatcmpl-6sKy7POpwtespFLK7OTQCCwNeRIZv\",\"object\":\"chat.completion.chunk\",\"created\":1678408335,\"model\":\"gpt-3.5-turbo-0301\",\"choices\":[{\"delta\":{\"content\":\"Hello\"},\"index\":0,\"finish_reason\":null}]}\n\n"
}

fn complete_response<'a>() -> &'a [u8; 2251] {
    b"{\"id\":\"chatcmpl-6sNfOBbKza2mImLMAWeoC37QEjDeY\",\"object\":\"chat.completion.chunk\",\"created\":1678418706,\"model\":\"gpt-3.5-turbo-0301\",\"choices\":[{\"delta\":{\"role\":\"assistant\"},\"index\":0,\"finish_reason\":null}]}\n\n{\"id\":\"chatcmpl-6sNfOBbKza2mImLMAWeoC37QEjDeY\",\"object\":\"chat.completion.chunk\",\"created\":1678418706,\"model\":\"gpt-3.5-turbo-0301\",\"choices\":[{\"delta\":{\"content\":\"Is\"},\"index\":0,\"finish_reason\":null}]}\n\n{\"id\":\"chatcmpl-6sNfOBbKza2mImLMAWeoC37QEjDeY\",\"object\":\"chat.completion.chunk\",\"created\":1678418706,\"model\":\"gpt-3.5-turbo-0301\",\"choices\":[{\"delta\":{\"content\":\" there\"},\"index\":0,\"finish_reason\":null}]}\n\n{\"id\":\"chatcmpl-6sNfOBbKza2mImLMAWeoC37QEjDeY\",\"object\":\"chat.completion.chunk\",\"created\":1678418706,\"model\":\"gpt-3.5-turbo-0301\",\"choices\":[{\"delta\":{\"content\":\" something\"},\"index\":0,\"finish_reason\":null}]}\n\n{\"id\":\"chatcmpl-6sNfOBbKza2mImLMAWeoC37QEjDeY\",\"object\":\"chat.completion.chunk\",\"created\":1678418706,\"model\":\"gpt-3.5-turbo-0301\",\"choices\":[{\"delta\":{\"content\":\" I\"},\"index\":0,\"finish_reason\":null}]}\n\n{\"id\":\"chatcmpl-6sNfOBbKza2mImLMAWeoC37QEjDeY\",\"object\":\"chat.completion.chunk\",\"created\":1678418706,\"model\":\"gpt-3.5-turbo-0301\",\"choices\":[{\"delta\":{\"content\":\" can\"},\"index\":0,\"finish_reason\":null}]}\n\n{\"id\":\"chatcmpl-6sNfOBbKza2mImLMAWeoC37QEjDeY\",\"object\":\"chat.completion.chunk\",\"created\":1678418706,\"model\":\"gpt-3.5-turbo-0301\",\"choices\":[{\"delta\":{\"content\":\" assist\"},\"index\":0,\"finish_reason\":null}]}\n\n{\"id\":\"chatcmpl-6sNfOBbKza2mImLMAWeoC37QEjDeY\",\"object\":\"chat.completion.chunk\",\"created\":1678418706,\"model\":\"gpt-3.5-turbo-0301\",\"choices\":[{\"delta\":{\"content\":\" you\"},\"index\":0,\"finish_reason\":null}]}\n\n{\"id\":\"chatcmpl-6sNfOBbKza2mImLMAWeoC37QEjDeY\",\"object\":\"chat.completion.chunk\",\"created\":1678418706,\"model\":\"gpt-3.5-turbo-0301\",\"choices\":[{\"delta\":{\"content\":\" with\"},\"index\":0,\"finish_reason\":null}]}\n\n{\"id\":\"chatcmpl-6sNfOBbKza2mImLMAWeoC37QEjDeY\",\"object\":\"chat.completion.chunk\",\"created\":1678418706,\"model\":\"gpt-3.5-turbo-0301\",\"choices\":[{\"delta\":{\"content\":\"?\"},\"index\":0,\"finish_reason\":null}]}\n\n{\"id\":\"chatcmpl-6sNfOBbKza2mImLMAWeoC37QEjDeY\",\"object\":\"chat.completion.chunk\",\"created\":1678418706,\"model\":\"gpt-3.5-turbo-0301\",\"choices\":[{\"delta\":{},\"index\":0,\"finish_reason\":\"stop\"}]}\n\ndata: [DONE]\n\n"
}

#[test]
fn test_nom_chat_completion_chunk() {
    let mut slice = no_delta().as_ref();
    match nom_chat_completion_chunk(slice) {
        Ok((remaining, chunk)) => {
            let expected_remaining = b"\n\ndata: {\"id\":\"chatcmpl-6sHKShQDKQCki9wzsdyALS3ublOkh\",\"object\":\"chat.completion.chunk\",\"created\":1678394344,\"model\":\"gpt-3.5-turbo-0301\",\"choices\":[{\"delta\":{},\"index\":0,\"finish_reason\":\"stop\"}]}\n\ndata: [DONE]\n\n";
            let expected_chunk = b"{\"id\":\"chatcmpl-6sHKShQDKQCki9wzsdyALS3ublOkh\",\"object\":\"chat.completion.chunk\",\"created\":1678394344,\"model\":\"gpt-3.5-turbo-0301\",\"choices\":[{\"delta\":{},\"index\":0,\"finish_reason\":\"stop\"}]}";

            assert_eq!(remaining, expected_remaining);
            assert_eq!(chunk, expected_chunk);
        }
        Err(e) => {
            panic!("{:?}", e);
        }
    }

    let expecting_first = b"{\"id\":\"chatcmpl-6sHKShQDKQCki9wzsdyALS3ublOkh\",\"object\":\"chat.completion.chunk\",\"created\":1678394344,\"model\":\"gpt-3.5-turbo-0301\",\"choices\":[{\"delta\":{},\"index\":0,\"finish_reason\":\"stop\"}]}";
    let expecting_second = b"{\"id\":\"chatcmpl-6sHKShQDKQCki9wzsdyALS3ublOkh\",\"object\":\"chat.completion.chunk\",\"created\":1678394344,\"model\":\"gpt-3.5-turbo-0301\",\"choices\":[{\"delta\":{},\"index\":0,\"finish_reason\":\"stop\"}]}";
    
    let mut c = 0;
    loop
    {
        match nom_chat_completion_chunk(slice) {
            Ok((remaining, chunk)) => {
                slice = remaining;
                if c == 0 {
                    assert_eq!(chunk, expecting_first);
                } else if c == 1 {
                    assert_eq!(chunk, expecting_second);
                } else {
                    panic!("Should not have gotten here");
                }
            }
            Err(e) => {
                if e.to_string() == "Parsing requires more data" {
                    break;
                }
                panic!("{:?}", e)
            }
        }
        c += 1;
    }
}

#[test]
fn test_nom_is_done() {
    let slice = no_delta().as_ref();
    assert!(nom_is_done(slice));

    let slice = some_delta().as_ref();
    assert!(!nom_is_done(slice));
}

#[test]
fn test_nom_content() {
    let slice = some_delta().as_ref();
    let (_, content) = nom_content(slice).unwrap();
    assert_eq!(content, b"{\"content\":\"Hello\"}");

    let slice = complete_response().as_ref();
    let (_, content) = nom_content(slice).unwrap();
    assert_eq!(content, b"{\"content\":\"Is\"}");

    let slice = no_delta().as_ref();
    match nom_content(slice) {
        Ok(_) => {
            panic!("Should not have gotten here");
        }
        Err(e) => {
            let expected = "Parsing requires more data";
            assert_eq!(e.to_string(), expected);
        }
    }
}
