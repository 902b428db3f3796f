//! The response descriptor: how it is made from what a router answered, and
//! how a failure becomes a response.

use crate::headers::{
    as_fields, collapse, lemma_collapse_names, lemma_collapse_value, lemma_settle, names, settle,
    Headers,
};
use crate::native;
use crate::native::{as_reply_fields, lower_case, reply_fields, reply_status};
use crate::text::{
    contains_run, lemma_contains_run_concat, lemma_contains_run_self, lemma_utf8_concat,
    str_contains,
};
use axum::http::response::Parts;
use vstd::prelude::*;
use vstd::utf8::*;

verus! {

/// Whether a header mapping announces a stream of server-sent events: it has a
/// `content-type`, and `text/event-stream` stands somewhere in its value, byte
/// for byte.
pub open spec fn event_stream(headers: Map<Seq<char>, Seq<char>>) -> bool {
    &&& headers.contains_key("content-type"@)
    &&& contains_run(encode_utf8(headers["content-type"@]), encode_utf8("text/event-stream"@))
}

/// The text of the body that reports a failure.
pub open spec fn failure_text(error: Seq<char>) -> Seq<char> {
    "An error occured: "@ + error
}

/// The header fields of a response that streams server-sent events.
pub open spec fn sse_fields() -> Seq<(Seq<char>, Seq<char>)> {
    seq![
        ("content-type"@, "text/event-stream"@),
        ("cache-control"@, "no-cache"@),
        ("connection"@, "keep-alive"@),
    ]
}

/// Every field of the list has a value that is text.
pub open spec fn all_text(fields: Seq<(Seq<char>, Option<Seq<char>>)>) -> bool {
    forall|i: int| 0 <= i < fields.len() ==> (#[trigger] fields[i]).1 is Some
}

/// The fields of a list whose values are all text.
pub open spec fn texts(fields: Seq<(Seq<char>, Option<Seq<char>>)>) -> Seq<
    (Seq<char>, Seq<char>),
> {
    fields.map_values(|field: (Seq<char>, Option<Seq<char>>)| (field.0, field.1->0))
}

/// The fields of a list that have a text as their value, in their order. A
/// field whose value is no text is left out.
pub open spec fn text_fields(fields: Seq<(Seq<char>, Option<Seq<char>>)>) -> Seq<
    (Seq<char>, Seq<char>),
>
    decreases fields.len(),
{
    if fields.len() == 0 {
        Seq::empty()
    } else {
        let front = text_fields(fields.drop_last());
        match fields.last().1 {
            Some(text) => front.push((fields.last().0, text)),
            None => front,
        }
    }
}

/// Where every value of a list is text, no field is left out.
pub proof fn lemma_text_fields_all_text(fields: Seq<(Seq<char>, Option<Seq<char>>)>)
    ensures
        all_text(fields) ==> text_fields(fields) == texts(fields),
    decreases fields.len(),
{
    if all_text(fields) {
        if fields.len() > 0 {
            let front = fields.drop_last();
            assert forall|i: int| 0 <= i < front.len() implies (#[trigger] front[i]).1 is Some by {
                assert(front[i] == fields[i]);
            }
            lemma_text_fields_all_text(front);
            assert(fields[fields.len() - 1].1 is Some);
            assert(texts(front).push((fields.last().0, fields.last().1->0)) =~= texts(fields));
        } else {
            assert(texts(fields) =~= Seq::empty());
        }
    }
}

/// Headers without a `content-type` announce no stream, and a `content-type`
/// that is exactly `text/event-stream` announces one.
pub proof fn lemma_event_stream_by_content_type(headers: Map<Seq<char>, Seq<char>>)
    ensures
        !headers.contains_key("content-type"@) ==> !event_stream(headers),
        headers.contains_key("content-type"@) && headers["content-type"@] == "text/event-stream"@
            ==> event_stream(headers),
{
    lemma_contains_run_self(encode_utf8("text/event-stream"@));
}

/// A response as it crosses the bridge: an HTTP response in plain values.
#[derive(Clone, Debug)]
pub struct LocalResponse {
    /// The status code.
    pub status_code: u16,
    /// The bytes of the body.
    pub body: Vec<u8>,
    /// The header fields.
    pub headers: Headers,
    /// Whether the body is a stream of server-sent events.
    pub is_sse: bool,
}

impl LocalResponse {
    /// The stream flag says what the headers say.
    pub open spec fn classified(&self) -> bool {
        self.is_sse == event_stream(self.headers@)
    }

    /// The response reports the failure `error`: status 500, no header, no
    /// stream, and the failure text as its body.
    pub open spec fn is_internal_server_error(&self, error: Seq<char>) -> bool {
        &&& self.status_code == 500
        &&& self.headers@ == Map::<Seq<char>, Seq<char>>::empty()
        &&& !self.is_sse
        &&& self.body@ == encode_utf8(failure_text(error))
    }

    /// The response is what was captured from a status code, a list of header
    /// fields and the outcome of reading the body: the status code as it is,
    /// each header name once, where it first stood, with the value of the last
    /// field that has it, the stream flag as the headers say, and the body
    /// that was read, or an empty one where reading it failed.
    pub open spec fn captures(
        &self,
        status_code: u16,
        fields: Seq<(Seq<char>, Seq<char>)>,
        body: Option<Vec<u8>>,
    ) -> bool {
        &&& self.status_code == status_code
        &&& self.headers.fields() == settle(fields)
        &&& self.headers@ == collapse(fields)
        &&& self.is_sse == event_stream(collapse(fields))
        &&& self.body@ == match body {
            Some(bytes) => bytes@,
            None => Seq::empty(),
        }
    }

    /// The response that reports an internal failure to the caller.
    pub fn internal_server_error(error: &str) -> (response: LocalResponse)
        ensures
            response.is_internal_server_error(error@),
            contains_run(response.body@, encode_utf8(error@)),
            response.classified(),
    {
        let mut message = String::from_str("An error occured: ");
        message.append(error);
        let body = message.as_str().as_bytes_vec();
        proof {
            lemma_utf8_concat("An error occured: "@, error@);
            lemma_contains_run_self(encode_utf8(error@));
            lemma_contains_run_concat(
                encode_utf8(error@),
                encode_utf8("An error occured: "@),
                encode_utf8(error@),
            );
        }
        LocalResponse { status_code: 500, body, headers: Headers::new(), is_sse: false }
    }

    /// A response that carries server-sent events: status 200, the headers of
    /// an event stream, and the body as it is.
    pub fn sse(body: Vec<u8>) -> (response: LocalResponse)
        ensures
            response.status_code == 200,
            response.body@ == body@,
            response.headers.fields() == sse_fields(),
            response.is_sse,
            response.classified(),
    {
        let mut headers = Headers::new();
        headers.insert(String::from_str("content-type"), String::from_str("text/event-stream"));
        headers.insert(String::from_str("cache-control"), String::from_str("no-cache"));
        headers.insert(String::from_str("connection"), String::from_str("keep-alive"));
        proof {
            reveal_strlit("content-type");
            reveal_strlit("cache-control");
            reveal_strlit("connection");
            assert("content-type"@.len() == 12);
            assert("cache-control"@.len() == 13);
            assert("connection"@.len() == 10);
            let first = seq![("content-type"@, "text/event-stream"@)];
            let second = first.push(("cache-control"@, "no-cache"@));
            assert(!names(Seq::empty(), "content-type"@));
            assert(!names(first, "cache-control"@));
            assert(!names(second, "connection"@));
            assert(Seq::<(Seq<char>, Seq<char>)>::empty().push(
                ("content-type"@, "text/event-stream"@),
            ) =~= first);
            assert(second.push(("connection"@, "keep-alive"@)) =~= sse_fields());
            lemma_collapse_value(sse_fields(), 0);
            lemma_contains_run_self(encode_utf8("text/event-stream"@));
        }
        LocalResponse { status_code: 200, body, headers, is_sse: true }
    }

    /// Whether the body is a stream of server-sent events.
    pub fn is_sse(&self) -> (flag: bool)
        ensures
            flag == self.is_sse,
    {
        self.is_sse
    }

    /// The response captured from plain values: a status code, the header
    /// fields in the order in which they were read, and the body that was
    /// read, or nothing where reading it failed.
    pub fn from_parts(
        status_code: u16,
        fields: &Vec<(String, String)>,
        body: Option<Vec<u8>>,
    ) -> (response: LocalResponse)
        ensures
            response.captures(status_code, as_fields(fields@), body),
            response.classified(),
    {
        let ghost all = as_fields(fields@);
        let mut headers = Headers::new();
        let count = fields.len();
        let mut at: usize = 0;
        proof {
            assert(all.take(0) =~= Seq::empty());
        }
        while at < count
            invariant
                count == fields@.len(),
                all == as_fields(fields@),
                at <= count,
                headers.fields() == settle(all.take(at as int)),
            decreases count - at,
        {
            proof {
                assert(all.take(at + 1).drop_last() =~= all.take(at as int));
            }
            headers.insert(fields[at].0.clone(), fields[at].1.clone());
            at += 1;
        }
        proof {
            assert(all.take(at as int) =~= all);
            lemma_settle(all);
        }
        let is_sse = match headers.get("content-type") {
            Some(value) => str_contains(value.as_str(), "text/event-stream"),
            None => false,
        };
        let body = match body {
            Some(bytes) => bytes,
            None => Vec::new(),
        };
        LocalResponse { status_code, body, headers, is_sse }
    }

    /// The header fields of a native response head that have a text as their
    /// value, in the order in which the head is walked.
    fn read_fields(head: &Parts) -> (fields: Vec<(String, String)>)
        ensures
            as_fields(fields@) == text_fields(reply_fields(*head)),
            forall|i: int| 0 <= i < fields@.len() ==> lower_case(#[trigger] fields@[i].0@),
    {
        let list = native::fields(head);
        let ghost native_fields = reply_fields(*head);
        let mut fields: Vec<(String, String)> = Vec::new();
        let count = list.len();
        let mut at: usize = 0;
        proof {
            assert(native_fields.take(0) =~= Seq::empty());
            assert(as_fields(fields@) =~= Seq::empty());
        }
        while at < count
            invariant
                count == list@.len(),
                native_fields == as_reply_fields(list@),
                at <= count,
                as_fields(fields@) == text_fields(native_fields.take(at as int)),
                forall|i: int| 0 <= i < list@.len() ==> lower_case(#[trigger] list@[i].0@),
                forall|i: int| 0 <= i < fields@.len() ==> lower_case(#[trigger] fields@[i].0@),
            decreases count - at,
        {
            proof {
                let next = native_fields.take(at + 1);
                assert(next.drop_last() =~= native_fields.take(at as int));
                assert(next.last() == native_fields[at as int]);
            }
            match &list[at].1 {
                Some(text) => {
                    let ghost before = fields@;
                    let name = list[at].0.clone();
                    let value = text.clone();
                    proof {
                        assert(as_fields(before.push((name, value))) =~= as_fields(before).push(
                            (name@, value@),
                        ));
                    }
                    fields.push((name, value));
                },
                None => {},
            }
            at += 1;
        }
        proof {
            assert(native_fields.take(at as int) =~= native_fields);
        }
        fields
    }

    /// The response captured from the head of a native response and from the
    /// outcome of reading its body to the end: the bytes that were read, or
    /// nothing where reading failed.
    ///
    /// The status code is the head's. The headers are the head's fields, each
    /// name in lower case as the native layer spells it, with the value of the
    /// last field of that name. A field whose value is no text has no place in
    /// a descriptor and is left out; nothing else of the response changes on
    /// its account.
    pub fn from_response(head: &Parts, body: Option<Vec<u8>>) -> (response: LocalResponse)
        ensures
            response.captures(reply_status(*head), text_fields(reply_fields(*head)), body),
            all_text(reply_fields(*head)) ==> response.captures(
                reply_status(*head),
                texts(reply_fields(*head)),
                body,
            ),
            response.classified(),
            forall|name: Seq<char>| #[trigger]
                response.headers@.contains_key(name) ==> lower_case(name),
    {
        let status_code = native::status_code(head);
        let fields = Self::read_fields(head);
        proof {
            lemma_text_fields_all_text(reply_fields(*head));
            assert forall|name: Seq<char>| #[trigger]
                collapse(as_fields(fields@)).contains_key(name) implies lower_case(name) by {
                lemma_collapse_names(as_fields(fields@), name);
                let i = choose|i: int|
                    0 <= i < as_fields(fields@).len() && #[trigger] as_fields(fields@)[i].0 == name;
                assert(lower_case(fields@[i].0@));
            }
        }
        Self::from_parts(status_code, &fields, body)
    }

    /// The last step of sending a request to a router: the response that goes
    /// back to the caller for what the router did. What was captured from the
    /// router's answer goes back as it is; a failure of the router goes back
    /// as the internal-server-error response that carries its message.
    pub fn from_router_result(result: Result<LocalResponse, String>) -> (response: LocalResponse)
        ensures
            match result {
                Ok(captured) => response == captured,
                Err(error) => response.is_internal_server_error(error@),
            },
    {
        match result {
            Ok(captured) => captured,
            Err(error) => Self::internal_server_error(error.as_str()),
        }
    }
}

} // verus!
