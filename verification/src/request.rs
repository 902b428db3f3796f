//! The request descriptor and its translation into a native request.

use crate::error::RequestError;
use crate::headers::{as_fields, Headers};
use crate::native;
use crate::native::{
    appended, builder_head, has_room, header_name, parsed_uri, request_view, started,
    uppercased, RequestHead, NAMES_WITH_ROOM,
};
use crate::response::LocalResponse;
use crate::text::str_eq;
use axum::body::Body;
use axum::http::Request;
use vstd::prelude::*;
use vstd::utf8::*;

verus! {

/// The request methods that a descriptor can ask for.
#[derive(Clone, Copy, Debug, PartialEq, Eq, Structural)]
pub enum Method {
    Get,
    Post,
    Put,
    Delete,
    Patch,
}

impl Method {
    /// The method that an upper-case name stands for.
    pub open spec fn named(upper: Seq<char>) -> Option<Method> {
        if upper == "GET"@ {
            Some(Method::Get)
        } else if upper == "POST"@ {
            Some(Method::Post)
        } else if upper == "PUT"@ {
            Some(Method::Put)
        } else if upper == "DELETE"@ {
            Some(Method::Delete)
        } else if upper == "PATCH"@ {
            Some(Method::Patch)
        } else {
            None
        }
    }

    /// The method that an upper-case name stands for: one of `GET`, `POST`,
    /// `PUT`, `DELETE` and `PATCH`, letter for letter, or none.
    pub fn from_upper(upper: &str) -> (method: Option<Method>)
        ensures
            method == Method::named(upper@),
    {
        if str_eq(upper, "GET") {
            Some(Method::Get)
        } else if str_eq(upper, "POST") {
            Some(Method::Post)
        } else if str_eq(upper, "PUT") {
            Some(Method::Put)
        } else if str_eq(upper, "DELETE") {
            Some(Method::Delete)
        } else if str_eq(upper, "PATCH") {
            Some(Method::Patch)
        } else {
            None
        }
    }
}

/// Each of the five method names stands for its own method, the empty name
/// stands for none, and no other name stands for one.
pub proof fn lemma_method_names()
    ensures
        Method::named("GET"@) == Some(Method::Get),
        Method::named("POST"@) == Some(Method::Post),
        Method::named("PUT"@) == Some(Method::Put),
        Method::named("DELETE"@) == Some(Method::Delete),
        Method::named("PATCH"@) == Some(Method::Patch),
        Method::named(Seq::empty()) is None,
        forall|upper: Seq<char>|
            #[trigger] Method::named(upper) is Some <==> upper == "GET"@ || upper == "POST"@
                || upper == "PUT"@ || upper == "DELETE"@ || upper == "PATCH"@,
{
    reveal_strlit("GET");
    reveal_strlit("POST");
    reveal_strlit("PUT");
    reveal_strlit("DELETE");
    reveal_strlit("PATCH");
    assert("GET"@.len() == 3 && "GET"@[0] == 'G');
    assert("POST"@.len() == 4);
    assert("PUT"@.len() == 3 && "PUT"@[0] == 'P');
    assert("DELETE"@.len() == 6);
    assert("PATCH"@.len() == 5);
}

/// The head that the native layer holds after the fields of a list were added
/// one after the other: nothing once it has refused one.
pub open spec fn applied(head: Option<RequestHead>, fields: Seq<(Seq<char>, Seq<char>)>) -> Option<
    RequestHead,
>
    decreases fields.len(),
{
    if fields.len() == 0 {
        head
    } else {
        appended(
            applied(head, fields.drop_last()),
            header_name(fields.last().0),
            fields.last().1,
        )
    }
}

/// The head carries the field: under the native spelling of the field's name
/// stands a value with exactly the bytes of the field's text.
pub open spec fn carries(head: RequestHead, field: (Seq<char>, Seq<char>)) -> bool {
    &&& header_name(field.0) matches Some(name)
    &&& head.fields.contains_key(name)
    &&& head.fields[name].contains(encode_utf8(field.1))
}

/// Adding fields changes neither the method nor the target, and needs a head
/// to start from.
pub proof fn lemma_applied_keeps_start(
    head: Option<RequestHead>,
    fields: Seq<(Seq<char>, Seq<char>)>,
)
    requires
        applied(head, fields) is Some,
    ensures
        head is Some,
        applied(head, fields)->0.method == head->0.method,
        applied(head, fields)->0.uri == head->0.uri,
    decreases fields.len(),
{
    if fields.len() > 0 {
        lemma_applied_keeps_start(head, fields.drop_last());
    }
}

/// A head that the native layer still holds after fields were added to a head
/// without fields has at most as many names as fields were added.
pub proof fn lemma_applied_names(head: Option<RequestHead>, fields: Seq<(Seq<char>, Seq<char>)>)
    requires
        applied(head, fields) is Some,
        head is Some ==> head->0.fields == Map::<Seq<char>, Seq<Seq<u8>>>::empty(),
    ensures
        applied(head, fields)->0.fields.dom().finite(),
        applied(head, fields)->0.fields.dom().len() <= fields.len(),
    decreases fields.len(),
{
    if fields.len() > 0 {
        lemma_applied_names(head, fields.drop_last());
    }
}

/// A head that the native layer still holds after all fields were added
/// carries every one of them.
pub proof fn lemma_applied_carries(
    head: Option<RequestHead>,
    fields: Seq<(Seq<char>, Seq<char>)>,
    at: int,
)
    requires
        applied(head, fields) is Some,
        0 <= at < fields.len(),
    ensures
        carries(applied(head, fields)->0, fields[at]),
    decreases fields.len(),
{
    let front = fields.drop_last();
    let before = applied(head, front)->0;
    let after = applied(head, fields)->0;
    let last = fields.last();
    let name = header_name(last.0)->0;
    let bytes = encode_utf8(last.1);
    if at == fields.len() - 1 {
        if before.fields.contains_key(name) {
            let values = before.fields[name].push(bytes);
            assert(values[values.len() - 1] == bytes);
        } else {
            assert(seq![bytes][0] == bytes);
        }
    } else {
        lemma_applied_carries(head, front, at);
        assert(front[at] == fields[at]);
        let held = header_name(fields[at].0)->0;
        if held == name {
            let values = before.fields[name];
            let wanted = encode_utf8(fields[at].1);
            let index = choose|i: int| 0 <= i < values.len() && values[i] == wanted;
            assert(values.push(bytes)[index] == wanted);
        }
    }
}

/// A request as it crosses the bridge: an HTTP request in plain values.
#[derive(Clone, Debug)]
pub struct LocalRequest {
    /// The request target: a path and perhaps a query.
    pub uri: String,
    /// The name of the request method, in any letter-casing.
    pub method: String,
    /// The body as text, where there is one.
    pub body: Option<String>,
    /// The header fields.
    pub headers: Headers,
}

/// What is to be done with a request descriptor.
#[derive(Debug)]
pub enum Dispatch {
    /// The descriptor was translated: this request goes to the router.
    Forward(Request<Body>),
    /// The descriptor could not be translated: this response goes back to the
    /// caller, and the router is not asked.
    Respond(LocalResponse),
}

impl LocalRequest {
    /// The method that the descriptor asks for: the one that its method name
    /// stands for once the name is put in upper case.
    pub open spec fn method_named(&self) -> Option<Method> {
        Method::named(uppercased(self.method@))
    }

    /// The bytes of the body that the descriptor describes: none where it has
    /// no body, else the UTF-8 bytes of its text.
    pub open spec fn body_bytes(&self) -> Seq<u8> {
        match self.body {
            None => Seq::empty(),
            Some(text) => encode_utf8(text@),
        }
    }

    /// The head of the native request that the descriptor describes with the
    /// method `method`: begun with the method and the target, with the
    /// descriptor's fields added in the order of its mapping. Nothing where
    /// the native layer refuses the target, a name or a value.
    pub open spec fn native_head(&self, method: Method) -> Option<RequestHead> {
        applied(started(method, parsed_uri(self.uri@)), self.headers.fields())
    }

    /// `request` is the native request that the descriptor describes.
    pub open spec fn describes(&self, request: Request<Body>) -> bool {
        &&& self.method_named() matches Some(method)
        &&& self.native_head(method) == Some(request_view(request).head)
        &&& request_view(request).body == self.body_bytes()
    }

    /// What the native request that a descriptor describes holds: the method
    /// that the descriptor names, the target as the native layer read it, every
    /// header field of the descriptor with its value byte for byte, and a body
    /// that is empty where the descriptor has none and else holds exactly the
    /// bytes of its text.
    pub proof fn lemma_described_request(&self, request: Request<Body>)
        requires
            self.describes(request),
        ensures
            Some(request_view(request).head.method) == self.method_named(),
            Some(request_view(request).head.uri) == parsed_uri(self.uri@),
            forall|at: int|
                0 <= at < self.headers.fields().len() ==> carries(
                    request_view(request).head,
                    #[trigger] self.headers.fields()[at],
                ),
            self.body is None ==> request_view(request).body.len() == 0,
            self.body matches Some(text) ==> request_view(request).body == encode_utf8(text@),
    {
        let method = self.method_named()->0;
        let start = started(method, parsed_uri(self.uri@));
        lemma_applied_keeps_start(start, self.headers.fields());
        assert forall|at: int| 0 <= at < self.headers.fields().len() implies carries(
            request_view(request).head,
            #[trigger] self.headers.fields()[at],
        ) by {
            lemma_applied_carries(start, self.headers.fields(), at);
        }
    }

    /// Translates the descriptor into a native request.
    ///
    /// The method name is put in upper case and has to be one of the five
    /// supported methods, else the translation fails on the method and hands
    /// the name back as it was given. Then the native request is built: from
    /// the target, from every header field in the order of the mapping, and
    /// from the body. Where the native layer refuses a part, the translation
    /// fails on the body. A request that comes out is the one that the
    /// descriptor describes, whole, and one does come out where the native
    /// layer takes the target and every field and the mapping holds no more
    /// fields than the native header map always has room for.
    pub fn to_axum_request(&self) -> (translated: Result<Request<Body>, RequestError>)
        ensures
            match translated {
                Ok(request) => {
                    &&& self.describes(request)
                    &&& self.body is None ==> request_view(request).body.len() == 0
                    &&& self.body matches Some(text) ==> request_view(request).body
                        == encode_utf8(text@)
                    &&& forall|at: int|
                        0 <= at < self.headers.fields().len() ==> carries(
                            request_view(request).head,
                            #[trigger] self.headers.fields()[at],
                        )
                },
                Err(RequestError::RequestMethodParseError(given)) => {
                    &&& self.method_named() is None
                    &&& given@ == self.method@
                },
                Err(RequestError::RequestBodyParseError(_)) => self.method_named() is Some,
            },
            self.method_named() is None ==> translated is Err,
            self.method_named() matches Some(method) && self.native_head(method) is None
                ==> translated is Err,
            self.method_named() matches Some(method) && self.native_head(method) is Some
                && self.headers.fields().len() <= NAMES_WITH_ROOM ==> translated is Ok,
    {
        let upper = native::uppercase(self.method.as_str());
        let method = match Method::from_upper(upper.as_str()) {
            Some(method) => method,
            None => {
                return Err(RequestError::RequestMethodParseError(self.method.clone()));
            },
        };
        let uri = self.uri.clone();
        let mut builder = match method {
            Method::Get => native::get(uri),
            Method::Post => native::post(uri),
            Method::Put => native::put(uri),
            Method::Delete => native::delete(uri),
            Method::Patch => native::patch(uri),
        };
        let ghost start = started(method, parsed_uri(self.uri@));
        let ghost fields = self.headers.fields();
        let pairs = self.headers.entries();
        let count = pairs.len();
        let mut at: usize = 0;
        proof {
            assert(fields.take(0) =~= Seq::empty());
        }
        while at < count
            invariant
                count == pairs@.len(),
                as_fields(pairs@) == fields,
                at <= count,
                start is Some ==> start->0.fields == Map::<Seq<char>, Seq<Seq<u8>>>::empty(),
                builder_head(builder) == applied(start, fields.take(at as int)) || builder_head(
                    builder,
                ) is None,
                count <= NAMES_WITH_ROOM ==> builder_head(builder) == applied(
                    start,
                    fields.take(at as int),
                ),
            decreases count - at,
        {
            proof {
                let next = fields.take(at + 1);
                assert(next.drop_last() =~= fields.take(at as int));
                assert(next.last() == (pairs@[at as int].0@, pairs@[at as int].1@));
                if applied(start, fields.take(at as int)) is Some {
                    lemma_applied_names(start, fields.take(at as int));
                }
            }
            builder = native::header(builder, &pairs[at].0, &pairs[at].1);
            at += 1;
        }
        proof {
            assert(fields.take(at as int) =~= fields);
        }
        let body = match &self.body {
            None => Vec::new(),
            Some(text) => text.as_str().as_bytes_vec(),
        };
        match native::finish(builder, body) {
            Ok(request) => {
                proof {
                    self.lemma_described_request(request);
                }
                Ok(request)
            },
            Err(error) => Err(RequestError::from(error)),
        }
    }

    /// The first step of sending the request to a router: what is to be done
    /// with the descriptor.
    ///
    /// A descriptor that translates is to be forwarded as the native request
    /// that it describes. One that does not is answered at once, with the
    /// internal-server-error response that carries the message of the failure.
    /// Either way the caller has something to go on with: no descriptor is
    /// left without a step.
    pub fn send_to_router(self) -> (step: Dispatch)
        ensures
            match step {
                Dispatch::Forward(request) => self.describes(request),
                Dispatch::Respond(response) => {
                    &&& self.method_named() is None ==> response.is_internal_server_error(
                        "Could not parse method from LocalRequest"@,
                    )
                    &&& self.method_named() is Some ==> response.is_internal_server_error(
                        "Could not parse body from LocalRequest"@,
                    )
                },
            },
            self.method_named() is None ==> step is Respond,
            self.method_named() matches Some(method) && self.native_head(method) is None
                ==> step is Respond,
            self.method_named() matches Some(method) && self.native_head(method) is Some
                && self.headers.fields().len() <= NAMES_WITH_ROOM ==> step is Forward,
    {
        match self.to_axum_request() {
            Ok(request) => Dispatch::Forward(request),
            Err(error) => {
                let message = error.to_string();
                Dispatch::Respond(LocalResponse::internal_server_error(message.as_str()))
            },
        }
    }
}

} // verus!
