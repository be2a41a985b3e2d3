use mockbox::response::{response_for, MimeType, Rendering, ReplyBody, ScriptReply};

fn answered(reply: ScriptReply) -> (u16, String, MimeType) {
    let data = response_for(reply).unwrap().unwrap();
    (data.status, data.body, data.mime_type)
}

#[test]
fn unit_is_proxied() {
    assert!(matches!(response_for(ScriptReply::Unit), Ok(None)));
}

#[test]
fn bare_string_is_plain_text_ok() {
    assert_eq!(
        answered(ScriptReply::Bare(ReplyBody::Text("Hello, World!".to_string()))),
        (200, "Hello, World!".to_string(), MimeType::TextPlain)
    );
}

#[test]
fn tuple_with_string_keeps_status() {
    assert_eq!(
        answered(ScriptReply::WithStatus(404, ReplyBody::Text("Not Found".to_string()))),
        (404, "Not Found".to_string(), MimeType::TextPlain)
    );
}

#[test]
fn object_is_json_ok() {
    assert_eq!(
        answered(ScriptReply::Bare(ReplyBody::Value(Ok("{\"some\":1}".to_string())))),
        (200, "{\"some\":1}".to_string(), MimeType::ApplicationJson)
    );
}

#[test]
fn tuple_with_description_is_generated_json() {
    assert_eq!(
        answered(ScriptReply::WithStatus(201, ReplyBody::Description(Rendering::Json("[1]".to_string())))),
        (201, "[1]".to_string(), MimeType::ApplicationJson)
    );
}

#[test]
fn generation_error_is_passed_on() {
    let out = response_for(ScriptReply::Bare(ReplyBody::Description(Rendering::GenerationFailed(
        "bad".to_string(),
    ))));
    assert_eq!(out.err(), Some("bad".to_string()));
}

#[test]
fn description_serialization_error_message() {
    let out = response_for(ScriptReply::Bare(ReplyBody::Description(
        Rendering::SerializationFailed("oops".to_string()),
    )));
    assert_eq!(out.err(), Some("Failed to serialize response object: oops".to_string()));
}

#[test]
fn bare_value_serialization_error_message() {
    let out = response_for(ScriptReply::Bare(ReplyBody::Value(Err("oops".to_string()))));
    assert_eq!(out.err(), Some("Invalid response object: oops".to_string()));
}

#[test]
fn tuple_value_serialization_error_message() {
    let out = response_for(ScriptReply::WithStatus(500, ReplyBody::Value(Err("oops".to_string()))));
    assert_eq!(out.err(), Some("Failed to serialize response object: oops".to_string()));
}

#[test]
fn mime_type_texts() {
    assert_eq!(MimeType::TextPlain.as_str(), "text/plain");
    assert_eq!(MimeType::ApplicationJson.as_str(), "application/json");
}
