use vstd::prelude::*;
use vstd::string::StringExecFns;

verus! {

broadcast use vstd::string::group_string_axioms;

/// The content type of a response that a script produced.
#[derive(Clone, Copy, Debug, PartialEq, Eq, Structural)]
pub enum MimeType {
    TextPlain,
    ApplicationJson,
}

/// The `Content-Type` header value of a content type.
pub open spec fn mime_text(m: MimeType) -> Seq<char> {
    match m {
        MimeType::TextPlain => "text/plain"@,
        MimeType::ApplicationJson => "application/json"@,
    }
}

impl MimeType {
    /// The `Content-Type` header value.
    pub fn as_str(&self) -> (text: &'static str)
        ensures
            text@ == mime_text(*self),
    {
        match self {
            MimeType::TextPlain => "text/plain",
            MimeType::ApplicationJson => "application/json",
        }
    }
}

/// A response that a script produced.
pub struct ResponseData {
    pub status: u16,
    pub body: String,
    pub mime_type: MimeType,
}

/// The JSON text of a data description that the script returned, once the
/// data was generated and serialized, or what went wrong on the way.
pub enum Rendering {
    /// The generated data, serialized.
    Json(String),
    /// Generating data from the description failed with this message.
    GenerationFailed(String),
    /// Serializing the generated data failed with this message.
    SerializationFailed(String),
}

/// The body of what a script returned, classified.
pub enum ReplyBody {
    /// A string: sent as it is.
    Text(String),
    /// A description of data to generate: sent as the generated JSON.
    Description(Rendering),
    /// Any other value: sent as its JSON serialization, or the serializer's
    /// error message.
    Value(Result<String, String>),
}

/// What a script's `handle_request` returned, classified.
pub enum ScriptReply {
    /// `()`: the request is proxied upstream.
    Unit,
    /// A `(status, body)` tuple.
    WithStatus(u16, ReplyBody),
    /// A body alone, sent with status 200.
    Bare(ReplyBody),
}

/// The body, content type or error that a classified body gives; `bare`
/// tells whether it came without a status, which changes the message of a
/// failed serialization.
pub open spec fn body_outcome(body: ReplyBody, bare: bool) -> Result<(Seq<char>, MimeType), Seq<char>> {
    match body {
        ReplyBody::Text(s) => Ok((s@, MimeType::TextPlain)),
        ReplyBody::Description(Rendering::Json(j)) => Ok((j@, MimeType::ApplicationJson)),
        ReplyBody::Description(Rendering::GenerationFailed(e)) => Err(e@),
        ReplyBody::Description(Rendering::SerializationFailed(e)) => Err(
            "Failed to serialize response object: "@ + e@,
        ),
        ReplyBody::Value(Ok(j)) => Ok((j@, MimeType::ApplicationJson)),
        ReplyBody::Value(Err(e)) => if bare {
            Err("Invalid response object: "@ + e@)
        } else {
            Err("Failed to serialize response object: "@ + e@)
        },
    }
}

/// What is answered for a script's reply: `None` to proxy the request, a
/// response, or an error message.
pub open spec fn reply_outcome(reply: ScriptReply) -> Result<Option<(u16, Seq<char>, MimeType)>, Seq<char>> {
    match reply {
        ScriptReply::Unit => Ok(None),
        ScriptReply::WithStatus(status, body) => match body_outcome(body, false) {
            Ok((text, mime)) => Ok(Some((status, text, mime))),
            Err(e) => Err(e),
        },
        ScriptReply::Bare(body) => match body_outcome(body, true) {
            Ok((text, mime)) => Ok(Some((200u16, text, mime))),
            Err(e) => Err(e),
        },
    }
}

/// Builds an error message from a fixed prefix and a detail.
fn prefixed(prefix: &str, detail: &str) -> (message: String)
    ensures
        message@ == prefix@ + detail@,
{
    let mut message = String::new();
    message.append(prefix);
    message.append(detail);
    assert(message@ =~= prefix@ + detail@);
    message
}

/// Turns a classified body into the response text and content type, or the error.
fn body_response(body: ReplyBody, bare: bool) -> (out: Result<(String, MimeType), String>)
    ensures
        match (out, body_outcome(body, bare)) {
            (Ok((text, mime)), Ok((t, m))) => text@ == t && mime == m,
            (Err(e), Err(f)) => e@ == f,
            _ => false,
        },
{
    match body {
        ReplyBody::Text(s) => Ok((s, MimeType::TextPlain)),
        ReplyBody::Description(Rendering::Json(j)) => Ok((j, MimeType::ApplicationJson)),
        ReplyBody::Description(Rendering::GenerationFailed(e)) => Err(e),
        ReplyBody::Description(Rendering::SerializationFailed(e)) => Err(
            prefixed("Failed to serialize response object: ", e.as_str()),
        ),
        ReplyBody::Value(Ok(j)) => Ok((j, MimeType::ApplicationJson)),
        ReplyBody::Value(Err(e)) => if bare {
            Err(prefixed("Invalid response object: ", e.as_str()))
        } else {
            Err(prefixed("Failed to serialize response object: ", e.as_str()))
        },
    }
}

/// The response for what a script returned: `Ok(None)` when the request is
/// to be proxied upstream, the response to send, or the error message.
pub fn response_for(reply: ScriptReply) -> (out: Result<Option<ResponseData>, String>)
    ensures
        match (out, reply_outcome(reply)) {
            (Ok(None), Ok(None)) => true,
            (Ok(Some(r)), Ok(Some((status, text, mime)))) => r.status == status && r.body@ == text
                && r.mime_type == mime,
            (Err(e), Err(f)) => e@ == f,
            _ => false,
        },
{
    match reply {
        ScriptReply::Unit => Ok(None),
        ScriptReply::WithStatus(status, body) => match body_response(body, false) {
            Ok((text, mime)) => Ok(Some(ResponseData { status, body: text, mime_type: mime })),
            Err(e) => Err(e),
        },
        ScriptReply::Bare(body) => match body_response(body, true) {
            Ok((text, mime)) => Ok(Some(ResponseData { status: 200, body: text, mime_type: mime })),
            Err(e) => Err(e),
        },
    }
}


/// A request is proxied upstream exactly when the script returned `()`.
pub proof fn law_proxied_iff_unit(reply: ScriptReply)
    ensures
        reply_outcome(reply) == Ok::<Option<(u16, Seq<char>, MimeType)>, Seq<char>>(None) <==> reply is Unit,
{
}

/// A string returned alone is sent as plain text with status 200.
pub proof fn law_bare_string_is_plain_ok(text: String)
    ensures
        reply_outcome(ScriptReply::Bare(ReplyBody::Text(text))) == Ok::<
            Option<(u16, Seq<char>, MimeType)>,
            Seq<char>,
        >(Some((200u16, text@, MimeType::TextPlain))),
{
}

/// A `(status, body)` tuple is answered with that status whenever its body renders.
pub proof fn law_tuple_keeps_status(status: u16, body: ReplyBody)
    requires
        body_outcome(body, false) is Ok,
    ensures
        reply_outcome(ScriptReply::WithStatus(status, body)) matches Ok(Some((s, _, _))) && s
            == status,
{
}

/// Whatever is not a string is sent as JSON.
pub proof fn law_non_strings_are_json(reply: ScriptReply)
    requires
        reply_outcome(reply) matches Ok(Some(_)),
        !(reply matches ScriptReply::WithStatus(_, ReplyBody::Text(_))),
        !(reply matches ScriptReply::Bare(ReplyBody::Text(_))),
    ensures
        reply_outcome(reply) matches Ok(Some((_, _, m))) && m == MimeType::ApplicationJson,
{
}

/// Whether a status came with it never changes what a body is sent as.
pub proof fn law_status_does_not_change_body(body: ReplyBody)
    ensures
        body_outcome(body, true) is Ok ==> body_outcome(body, false) == body_outcome(body, true),
{
}

/// A string, a serialized value and generated data are each sent verbatim,
/// with or without a status.
pub proof fn law_rendered_bodies_sent_verbatim(body: ReplyBody, bare: bool)
    ensures
        body matches ReplyBody::Text(s) ==> body_outcome(body, bare) == Ok::<
            (Seq<char>, MimeType),
            Seq<char>,
        >((s@, MimeType::TextPlain)),
        body matches ReplyBody::Value(Ok(j)) ==> body_outcome(body, bare) == Ok::<
            (Seq<char>, MimeType),
            Seq<char>,
        >((j@, MimeType::ApplicationJson)),
        body matches ReplyBody::Description(Rendering::Json(j)) ==> body_outcome(body, bare)
            == Ok::<(Seq<char>, MimeType), Seq<char>>((j@, MimeType::ApplicationJson)),
{
}

/// A `(status, body)` reply is answered with that status and the same text
/// and content type as the body alone would be.
pub proof fn law_tuple_sends_body_as_bare(status: u16, body: ReplyBody)
    requires
        reply_outcome(ScriptReply::Bare(body)) matches Ok(Some(_)),
    ensures
        match (reply_outcome(ScriptReply::WithStatus(status, body)), reply_outcome(
            ScriptReply::Bare(body),
        )) {
            (Ok(Some((s, t, m))), Ok(Some((_, t2, m2)))) => s == status && t == t2 && m == m2,
            _ => false,
        },
{
}

} // verus!
