//! The native HTTP layer: the types and calls of `http` and `axum` that the
//! translation rests on.
//!
//! Nothing in this file is proved. Each declaration makes a type of the native
//! layer known, each uninterpreted function names what the native layer holds
//! or computes, and each function with a body makes one call and states what
//! that call does.

use crate::request::Method;
use axum::body::Body;
use axum::http::request::Builder;
use axum::http::response::Parts;
use axum::http::Request;
use vstd::prelude::*;
use vstd::utf8::*;

verus! {

/// `http::request::Builder`, the native request under construction.
#[verifier::external_type_specification]
#[verifier::external_body]
pub struct ExBuilder(Builder);

/// `http::Request`, the native request.
#[verifier::external_type_specification]
#[verifier::external_body]
#[verifier::reject_recursive_types(T)]
pub struct ExRequest<T>(Request<T>);

/// `axum::body::Body`, the body of a native request or response.
#[verifier::external_type_specification]
#[verifier::external_body]
pub struct ExBody(Body);

/// `http::Error`, what the native layer gives when it refuses a part of a
/// request.
#[verifier::external_type_specification]
#[verifier::external_body]
pub struct ExHttpError(axum::http::Error);

/// `http::response::Parts`, the head of a native response.
#[verifier::external_type_specification]
#[verifier::external_body]
pub struct ExParts(Parts);

/// The head of a native request as plain values.
pub struct RequestHead {
    /// The request method.
    pub method: Method,
    /// The request target, as the native URI writes itself.
    pub uri: Seq<char>,
    /// The header fields: for each name, as the native layer spells it, the
    /// bytes of its values in the order in which they were added.
    pub fields: Map<Seq<char>, Seq<Seq<u8>>>,
}

/// A native request as plain values.
pub struct RequestView {
    /// The head of the request.
    pub head: RequestHead,
    /// The bytes of the body.
    pub body: Seq<u8>,
}

/// What `str::to_uppercase` makes of a text.
pub uninterp spec fn uppercased(text: Seq<char>) -> Seq<char>;

/// What `Uri::try_from` makes of a request target: nothing where it refuses
/// the text, else the URI as its `Display` writes it.
pub uninterp spec fn parsed_uri(text: Seq<char>) -> Option<Seq<char>>;

/// What a request builder holds: the head built so far, or nothing once the
/// native layer has refused a part.
pub uninterp spec fn builder_head(builder: Builder) -> Option<RequestHead>;

/// What a native request holds. The body's bytes are those that reading it to
/// its end gives.
pub uninterp spec fn request_view(request: Request<Body>) -> RequestView;

/// The status code that the head of a native response holds.
pub uninterp spec fn reply_status(head: Parts) -> u16;

/// The header fields that the head of a native response holds, in the order in
/// which `HeaderMap::iter` walks them: each with its name as
/// `HeaderName::as_str` spells it, and with its value as text where
/// `HeaderValue::to_str` gives one.
pub uninterp spec fn reply_fields(head: Parts) -> Seq<(Seq<char>, Option<Seq<char>>)>;

/// A byte that `HeaderName` takes: a letter, a digit, or one of
/// `` !#$%&'*+-.^_`|~ ``.
pub open spec fn name_byte_accepted(byte: u8) -> bool {
    ||| 0x30 <= byte <= 0x39
    ||| 0x41 <= byte <= 0x5a
    ||| 0x61 <= byte <= 0x7a
    ||| byte == 0x21
    ||| 0x23 <= byte <= 0x27
    ||| byte == 0x2a
    ||| byte == 0x2b
    ||| byte == 0x2d
    ||| byte == 0x2e
    ||| 0x5e <= byte <= 0x60
    ||| byte == 0x7c
    ||| byte == 0x7e
}

/// The character that `HeaderName` keeps for a byte that it takes: the byte
/// itself, but for an upper-case letter the lower-case one.
pub open spec fn name_char(byte: u8) -> char {
    if 0x41 <= byte <= 0x5a {
        ((byte + 0x20) as u8) as char
    } else {
        byte as char
    }
}

/// What `HeaderName::try_from` makes of a header name: nothing where it
/// refuses the text, else the name as `HeaderName::as_str` spells it. It takes
/// a text of 1 to 65535 bytes, each of which it takes, and spells it in lower
/// case.
pub open spec fn header_name(text: Seq<char>) -> Option<Seq<char>> {
    let bytes = encode_utf8(text);
    if 1 <= bytes.len() <= 65535 && (forall|i: int|
        0 <= i < bytes.len() ==> name_byte_accepted(#[trigger] bytes[i])) {
        Some(Seq::new(bytes.len(), |i: int| name_char(bytes[i])))
    } else {
        None
    }
}

/// No letter of the text is an upper-case letter of ASCII.
pub open spec fn lower_case(text: Seq<char>) -> bool {
    forall|i: int| 0 <= i < text.len() ==> !('A' <= #[trigger] text[i] <= 'Z')
}

/// The number of header names below which the native header map always has
/// room for one more field. The map refuses a field only when its index table
/// of 32768 slots would have to grow, for which a fifth of the slots have to
/// be taken by names, or when it holds 32768 names.
pub const NAMES_WITH_ROOM: usize = 6554;

/// The fields of a head leave room for one more field, whatever its name.
pub open spec fn has_room(fields: Map<Seq<char>, Seq<Seq<u8>>>) -> bool {
    fields.dom().finite() && fields.dom().len() < NAMES_WITH_ROOM
}

/// A byte that `HeaderValue` takes: no control character but the tab.
pub open spec fn value_byte_accepted(byte: u8) -> bool {
    (byte >= 32 && byte != 127) || byte == 9
}

/// A text that `HeaderValue::try_from` takes as a header value: each of its
/// UTF-8 bytes is accepted.
pub open spec fn header_value_accepted(text: Seq<char>) -> bool {
    forall|i: int|
        0 <= i < encode_utf8(text).len() ==> value_byte_accepted(#[trigger] encode_utf8(text)[i])
}

/// The head of a request that was begun with a method and with what the
/// native layer made of the target: nothing where it refused the target.
pub open spec fn started(method: Method, target: Option<Seq<char>>) -> Option<RequestHead> {
    match target {
        Some(uri) => Some(RequestHead { method, uri, fields: Map::empty() }),
        None => None,
    }
}

/// The fields of a head after one more value was added under `name`.
pub open spec fn with_value(
    fields: Map<Seq<char>, Seq<Seq<u8>>>,
    name: Seq<char>,
    value: Seq<u8>,
) -> Map<Seq<char>, Seq<Seq<u8>>> {
    if fields.contains_key(name) {
        fields.insert(name, fields[name].push(value))
    } else {
        fields.insert(name, seq![value])
    }
}

/// The head after a header field was added to it, under what the native layer
/// made of the field's name: nothing where there was no head or where the
/// native layer refused the name or refuses the value.
pub open spec fn appended(
    head: Option<RequestHead>,
    name: Option<Seq<char>>,
    value: Seq<char>,
) -> Option<RequestHead> {
    match (head, name) {
        (Some(head), Some(native_name)) if header_value_accepted(value) => Some(
            RequestHead {
                method: head.method,
                uri: head.uri,
                fields: with_value(head.fields, native_name, encode_utf8(value)),
            },
        ),
        _ => None,
    }
}

/// The fields of a list as text, each with the value that the native layer
/// could give as text.
pub open spec fn as_reply_fields(list: Seq<(String, Option<String>)>) -> Seq<
    (Seq<char>, Option<Seq<char>>),
> {
    list.map_values(
        |field: (String, Option<String>)|
            (
                field.0@,
                match field.1 {
                    Some(text) => Some(text@),
                    None => None,
                },
            ),
    )
}

/// `str::to_uppercase`: the upper-case form of a text.
#[verifier::external_body]
pub(crate) fn uppercase(text: &str) -> (upper: String)
    ensures
        upper@ == uppercased(text@),
{
    text.to_uppercase()
}

/// `Request::get`: a builder that holds the method GET and the target, or
/// nothing where the target is refused.
#[verifier::external_body]
pub(crate) fn get(uri: String) -> (builder: Builder)
    ensures
        builder_head(builder) == started(Method::Get, parsed_uri(uri@)),
{
    Request::get(uri)
}

/// `Request::post`: a builder that holds the method POST and the target, or
/// nothing where the target is refused.
#[verifier::external_body]
pub(crate) fn post(uri: String) -> (builder: Builder)
    ensures
        builder_head(builder) == started(Method::Post, parsed_uri(uri@)),
{
    Request::post(uri)
}

/// `Request::put`: a builder that holds the method PUT and the target, or
/// nothing where the target is refused.
#[verifier::external_body]
pub(crate) fn put(uri: String) -> (builder: Builder)
    ensures
        builder_head(builder) == started(Method::Put, parsed_uri(uri@)),
{
    Request::put(uri)
}

/// `Request::delete`: a builder that holds the method DELETE and the target,
/// or nothing where the target is refused.
#[verifier::external_body]
pub(crate) fn delete(uri: String) -> (builder: Builder)
    ensures
        builder_head(builder) == started(Method::Delete, parsed_uri(uri@)),
{
    Request::delete(uri)
}

/// `Request::patch`: a builder that holds the method PATCH and the target, or
/// nothing where the target is refused.
#[verifier::external_body]
pub(crate) fn patch(uri: String) -> (builder: Builder)
    ensures
        builder_head(builder) == started(Method::Patch, parsed_uri(uri@)),
{
    Request::patch(uri)
}

/// `Builder::header`: the builder with one more header field. It holds the
/// head with the field added, or nothing: nothing where it held nothing
/// before, where the name or the value is refused, and where the native
/// header map has no room left. A head that leaves room gets the field.
#[verifier::external_body]
pub(crate) fn header(builder: Builder, name: &String, value: &String) -> (next: Builder)
    ensures
        builder_head(next) == appended(builder_head(builder), header_name(name@), value@)
            || builder_head(next) is None,
        builder_head(builder) matches Some(head) && has_room(head.fields) ==> builder_head(next)
            == appended(builder_head(builder), header_name(name@), value@),
{
    builder.header(name, value)
}

/// `Builder::body`, with a body made by `Body::from`: the request that the
/// builder's head and these bytes make, or the error of the part that was
/// refused earlier.
#[verifier::external_body]
pub(crate) fn finish(builder: Builder, body: Vec<u8>) -> (built: Result<
    Request<Body>,
    axum::http::Error,
>)
    ensures
        match built {
            Ok(request) => builder_head(builder) == Some(request_view(request).head)
                && request_view(request).body == body@,
            Err(_) => builder_head(builder) is None,
        },
{
    builder.body(Body::from(body))
}

/// `StatusCode::as_u16` on the status of a response head.
#[verifier::external_body]
pub(crate) fn status_code(head: &Parts) -> (code: u16)
    ensures
        code == reply_status(*head),
{
    head.status.as_u16()
}

/// `HeaderMap::iter` on the headers of a response head: the fields in the
/// order in which it walks them, each name written by `HeaderName::as_str`,
/// which writes lower case, and each value by `HeaderValue::to_str`, where
/// that gives a text.
#[verifier::external_body]
pub(crate) fn fields(head: &Parts) -> (list: Vec<(String, Option<String>)>)
    ensures
        as_reply_fields(list@) == reply_fields(*head),
        forall|i: int| 0 <= i < list@.len() ==> lower_case(#[trigger] list@[i].0@),
{
    head.headers
        .iter()
        .map(|(name, value)| (name.as_str().to_owned(), value.to_str().ok().map(str::to_owned)))
        .collect()
}

} // verus!
