use local_brain::normalize::{
    accept_content, extract_from_fence, normalize_response, read_backend_reply, ResponseError,
};

const BODY: &str = "{\"model\":\"m\",\"message\":{\"role\":\"assistant\",\"content\":\"## Issues Found\\n- none\"},\"done\":true}";

#[test]
fn reads_reply_content() {
    assert_eq!(normalize_response(BODY).unwrap(), "## Issues Found\n- none");
}

#[test]
fn fenced_body_reads_like_bare_body() {
    let fenced = format!("```json\n{}\n```", BODY);
    assert_eq!(extract_from_fence(&fenced), BODY);
    assert_eq!(normalize_response(&fenced).unwrap(), normalize_response(BODY).unwrap());
    let plain_fence = format!("  ```\n{}\n```  ", BODY);
    assert_eq!(normalize_response(&plain_fence).unwrap(), "## Issues Found\n- none");
}

#[test]
fn unfenced_text_is_unchanged() {
    assert_eq!(extract_from_fence(" {\"a\": 1} "), " {\"a\": 1} ");
    assert_eq!(extract_from_fence("plain"), "plain");
}

#[test]
fn blank_body_is_empty_response() {
    assert!(matches!(normalize_response(""), Err(ResponseError::EmptyResponse)));
    assert!(matches!(normalize_response(" \n\t"), Err(ResponseError::EmptyResponse)));
}

#[test]
fn invalid_json_is_malformed() {
    match normalize_response("{not json") {
        Err(ResponseError::Malformed { prefix }) => assert_eq!(prefix, "{not json"),
        _ => panic!("malformed expected"),
    }
    let long = "x".repeat(300);
    match normalize_response(&long) {
        Err(ResponseError::Malformed { prefix }) => assert_eq!(prefix.chars().count(), 200),
        _ => panic!("malformed expected"),
    }
    match normalize_response("```json\n{broken\n```") {
        Err(ResponseError::Malformed { prefix }) => assert_eq!(prefix, "```json\n{broken\n```"),
        _ => panic!("malformed expected"),
    }
    assert!(matches!(normalize_response("{\"message\":{}}"), Err(ResponseError::Malformed { .. })));
}

#[test]
fn blank_reply_is_empty_content() {
    let body = "{\"message\":{\"content\":\"  \"}}";
    assert!(matches!(normalize_response(body), Err(ResponseError::EmptyContent)));
    assert!(matches!(accept_content("b", Some(String::from(""))), Err(ResponseError::EmptyContent)));
    assert_eq!(accept_content("b", Some(String::from("ok"))).unwrap(), "ok");
}

#[test]
fn status_is_checked_first() {
    match read_backend_reply(500, BODY) {
        Err(e) => assert_eq!(e.message(), "Ollama API returned error: 500"),
        Ok(_) => panic!("error status accepted"),
    }
    assert_eq!(read_backend_reply(200, BODY).unwrap(), "## Issues Found\n- none");
    assert_eq!(
        ResponseError::EmptyResponse.message(),
        "Ollama returned empty response. The model may have crashed or disconnected."
    );
}
