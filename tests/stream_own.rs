use oairs::stream::{
    nom_chat_completion_chunk, nom_content_value, nom_delta_value, nom_role, nom_role_value,
    nom_til_done, take_until, tag, ParseError,
};

#[test]
fn complete_object_then_partial_object() {
    let buffer: &[u8] = b"data: {\"choices\":[{\"delta\":{\"content\":\"Hi\"}}]}\n\ndata: {\"choices\":[{\"del";
    let (rest, chunk) = nom_chat_completion_chunk(buffer).unwrap();
    assert_eq!(chunk, b"{\"choices\":[{\"delta\":{\"content\":\"Hi\"}}]}");
    let (_, content) = nom_content_value(chunk).unwrap();
    assert_eq!(content, b"Hi");
    let second = nom_chat_completion_chunk(rest);
    assert_eq!(second, Err(ParseError::Incomplete));
    assert_eq!(second.unwrap_err().to_string(), "Parsing requires more data");
}

#[test]
fn role_and_delta_values() {
    let chunk: &[u8] = b"{\"choices\":[{\"delta\":{\"role\":\"assistant\"},\"index\":0}]}";
    let (_, role) = nom_role(chunk).unwrap();
    assert_eq!(role, b"{\"role\":\"assistant\"}");
    let (_, value) = nom_role_value(chunk).unwrap();
    assert_eq!(value, b"assistant");
    let (_, delta) = nom_delta_value(b"{\"content\":\" there\"}").unwrap();
    assert_eq!(delta, b" there");
}

#[test]
fn done_marker() {
    let (rest, done) = nom_til_done(b"data: [DONE]\n\n").unwrap();
    assert_eq!(done, b"[DONE]");
    assert_eq!(rest, b"\n\n");
    assert_eq!(nom_til_done(b"data: [DO"), Err(ParseError::Incomplete));
}

#[test]
fn primitive_parsers() {
    assert_eq!(take_until(b"abcdef", b"cd"), Ok((&b"cdef"[..], &b"ab"[..])));
    assert_eq!(take_until(b"abc", b"x"), Err(ParseError::Incomplete));
    assert_eq!(tag(b"abc", b"ab"), Ok((&b"c"[..], &b"ab"[..])));
    assert_eq!(tag(b"a", b"ab"), Err(ParseError::Incomplete));
    assert_eq!(tag(b"xb", b"ab"), Err(ParseError::Mismatch));
    assert_eq!(ParseError::Mismatch.to_string(), "Parsing Error: Tag");
}
