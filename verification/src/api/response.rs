//! Answers in the shape of HTTP responses.
use crate::json::{Fields, Json, JsonView};
use crate::outside::{base64_encode, base64_text, json_document, json_to_string};
use crate::text::{replace_all, replaced};
use vstd::prelude::*;
use vstd::string::*;
use vstd::utf8::encode_utf8;

verus! {

/// A transport-neutral response.
#[derive(Debug, PartialEq)]
pub struct ApiResponse {
    pub status: u16,
    pub content_type: String,
    pub body: Vec<u8>,
}

/// The response has the given status, type and text.
pub open spec fn responds(
    r: ApiResponse,
    status: int,
    content_type: Seq<char>,
    text: Seq<char>,
) -> bool {
    r.status == status && r.content_type@ == content_type && r.body@ == encode_utf8(text)
}

/// The response is a JSON document with the given status.
pub open spec fn responds_json(r: ApiResponse, status: int, value: JsonView) -> bool {
    responds(r, status, "application/json"@, json_document(value))
}

/// The JSON of an error.
pub open spec fn error_json(message: Seq<char>) -> JsonView {
    JsonView::Object(seq![("error"@, JsonView::Text(message))])
}

/// The response reports an error.
pub open spec fn responds_error(r: ApiResponse, status: int, message: Seq<char>) -> bool {
    responds_json(r, status, error_json(message))
}

/// The JSON of a plain success.
pub open spec fn ok_json() -> JsonView {
    JsonView::Object(seq![("ok"@, JsonView::Bool(true))])
}

impl ApiResponse {
    /// An HTML page.
    pub fn html(body: &str) -> (out: ApiResponse)
        ensures
            responds(out, 200, "text/html; charset=utf-8"@, body@),
    {
        ApiResponse {
            status: 200,
            content_type: "text/html; charset=utf-8".to_owned(),
            body: body.as_bytes_vec(),
        }
    }

    /// A script.
    pub fn javascript(body: &str) -> (out: ApiResponse)
        ensures
            responds(out, 200, "application/javascript; charset=utf-8"@, body@),
    {
        ApiResponse {
            status: 200,
            content_type: "application/javascript; charset=utf-8".to_owned(),
            body: body.as_bytes_vec(),
        }
    }

    /// A JSON document with a status.
    pub fn json_with(status: u16, value: &Json) -> (out: ApiResponse)
        ensures
            responds_json(out, status as int, value@),
    {
        ApiResponse {
            status,
            content_type: "application/json".to_owned(),
            body: json_to_string(value).as_str().as_bytes_vec(),
        }
    }

    /// A JSON document.
    pub fn json(value: &Json) -> (out: ApiResponse)
        ensures
            responds_json(out, 200, value@),
    {
        ApiResponse::json_with(200, value)
    }

    /// An error.
    pub fn error(status: u16, message: &str) -> (out: ApiResponse)
        ensures
            responds_error(out, status as int, message@),
    {
        let mut fields: Fields = Fields::new();
        fields.put_text("error", message);
        assert(fields@ =~= seq![("error"@, JsonView::Text(message@))]);
        ApiResponse::json_with(status, &fields.object())
    }
}

/// A plain success.
pub fn ok_response() -> (out: ApiResponse)
    ensures
        responds_json(out, 200, ok_json()),
{
    let mut fields: Fields = Fields::new();
    fields.put_bool("ok", true);
    assert(fields@ =~= seq![("ok"@, JsonView::Bool(true))]);
    ApiResponse::json(&fields.object())
}

/// The answer to an operation that yields nothing: a plain success, or its
/// error with the given status.
pub fn unit_response(done: &Result<(), String>, status: u16) -> (out: ApiResponse)
    ensures
        match done {
            Ok(_) => responds_json(out, 200, ok_json()),
            Err(e) => responds_error(out, status as int, e@),
        },
{
    match done {
        Ok(_) => ok_response(),
        Err(e) => ApiResponse::error(status, e.as_str()),
    }
}

/// The logo as a `data:` URI.
pub fn logo_data_uri(png: &[u8]) -> (out: String)
    ensures
        out@ == "data:image/png;base64,"@ + base64_text(png@),
{
    let mut out: String = "data:image/png;base64,".to_owned();
    out.append(base64_encode(png).as_str());
    out
}

/// The build-mode page: the given page with the logo in its place.
pub fn build_page(html: &str, logo: &str) -> (out: ApiResponse)
    ensures
        responds(
            out,
            200,
            "text/html; charset=utf-8"@,
            replaced(html@, "__NIRDOSHA_LOGO__"@, logo@),
        ),
{
    proof {
        reveal_strlit("__NIRDOSHA_LOGO__");
    }
    ApiResponse::html(replace_all(html, "__NIRDOSHA_LOGO__", logo).as_str())
}

/// A JSON answer carries the document's bytes under the JSON type; an error is a
/// document with one field, which says what went wrong; a plain success is a
/// document with one field that is true.
pub proof fn law_what_an_answer_carries(
    r: ApiResponse,
    status: int,
    value: JsonView,
    message: Seq<char>,
)
    ensures
        responds_json(r, status, value) <==> r.status == status && r.content_type@
            == "application/json"@ && r.body@ == encode_utf8(json_document(value)),
        responds_error(r, status, message) <==> responds_json(
            r,
            status,
            JsonView::Object(seq![("error"@, JsonView::Text(message))]),
        ),
        ok_json() is Object,
        ok_json()->Object_0.len() == 1,
        ok_json()->Object_0[0] == ("ok"@, JsonView::Bool(true)),
{
}

} // verus!
