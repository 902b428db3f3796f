use axum::body::Body;
use axum::http::header::HeaderValue;
use axum::http::response::Builder;
use axum::response::Response;
use tauri_axum_htmx::LocalResponse;

fn from_response(response: Response) -> LocalResponse {
    let (head, body) = response.into_parts();
    let runtime = tokio::runtime::Builder::new_current_thread()
        .build()
        .unwrap();
    let bytes = runtime
        .block_on(axum::body::to_bytes(body, usize::MAX))
        .ok()
        .map(|bytes| bytes.to_vec());
    LocalResponse::from_response(&head, bytes)
}

fn pairs(fields: &[(&str, &str)]) -> Vec<(String, String)> {
    fields
        .iter()
        .map(|(name, value)| (name.to_string(), value.to_string()))
        .collect()
}

#[test]
fn test_response_creation_with_body() {
    let response = Builder::new()
        .status(200)
        .body(Body::from("test body"))
        .unwrap();

    let local_response = from_response(response);
    assert_eq!(local_response.status_code, 200);
    assert_eq!(String::from_utf8(local_response.body).unwrap(), "test body");
}

#[test]
fn test_response_with_headers() {
    let response = Builder::new()
        .status(200)
        .header("X-Test", "test-value")
        .body(Body::empty())
        .unwrap();

    let local_response = from_response(response);
    assert_eq!(local_response.status_code, 200);
    assert_eq!(local_response.headers.get("x-test").unwrap(), "test-value");
}

#[test]
fn test_internal_server_error() {
    let error_message = "Test error";
    let response = LocalResponse::internal_server_error(error_message);

    assert_eq!(response.status_code, 500);
    assert!(String::from_utf8(response.body)
        .unwrap()
        .contains(error_message));
    assert!(response.headers.is_empty());
}

#[test]
fn test_sse_response_from_axum_response() {
    let response = Builder::new()
        .status(200)
        .header("content-type", "text/event-stream")
        .body(Body::from("data: test message\n\n"))
        .unwrap();

    let local_response = from_response(response);
    assert_eq!(local_response.status_code, 200);
    assert!(local_response.is_sse());
    assert_eq!(
        local_response.headers.get("content-type").unwrap(),
        "text/event-stream"
    );
}

#[test]
fn internal_server_error_has_the_exact_body() {
    let response = LocalResponse::internal_server_error("X");
    assert_eq!(response.status_code, 500);
    assert_eq!(response.body, b"An error occured: X".to_vec());
    assert!(response.headers.is_empty());
    assert!(!response.is_sse);
    assert!(!response.is_sse());
}

#[test]
fn internal_server_error_of_an_empty_message() {
    let response = LocalResponse::internal_server_error("");
    assert_eq!(response.body, b"An error occured: ".to_vec());
}

#[test]
fn internal_server_error_keeps_text_beyond_ascii() {
    let response = LocalResponse::internal_server_error("d\u{e9}faut");
    assert_eq!(
        String::from_utf8(response.body).unwrap(),
        "An error occured: d\u{e9}faut"
    );
}

#[test]
fn the_status_code_is_taken_as_it_is() {
    for code in [100u16, 204, 301, 404, 500, 599] {
        let response = Builder::new().status(code).body(Body::empty()).unwrap();
        let local_response = from_response(response);
        assert_eq!(local_response.status_code, code);
        assert!(local_response.body.is_empty());
        assert!(local_response.headers.is_empty());
        assert!(!local_response.is_sse());
    }
}

#[test]
fn the_last_of_two_fields_with_one_name_stays() {
    let response = Builder::new()
        .status(200)
        .header("set-cookie", "a=1")
        .header("x-other", "between")
        .header("set-cookie", "b=2")
        .body(Body::empty())
        .unwrap();
    let local_response = from_response(response);
    assert_eq!(local_response.headers.len(), 2);
    assert_eq!(local_response.headers.get("set-cookie").unwrap(), "b=2");
    assert_eq!(local_response.headers.get("x-other").unwrap(), "between");
}

#[test]
fn a_content_type_that_holds_the_marker_is_a_stream() {
    let response = Builder::new()
        .status(200)
        .header("Content-Type", "text/event-stream; charset=utf-8")
        .body(Body::empty())
        .unwrap();
    assert!(from_response(response).is_sse());
}

#[test]
fn the_marker_is_matched_by_letter_case() {
    let response = Builder::new()
        .status(200)
        .header("content-type", "TEXT/EVENT-STREAM")
        .body(Body::empty())
        .unwrap();
    assert!(!from_response(response).is_sse());
}

#[test]
fn the_marker_in_another_header_is_no_stream() {
    let response = Builder::new()
        .status(200)
        .header("accept", "text/event-stream")
        .header("content-type", "text/html")
        .body(Body::empty())
        .unwrap();
    assert!(!from_response(response).is_sse());
}

#[test]
fn the_last_content_type_decides() {
    let response = Builder::new()
        .status(200)
        .header("content-type", "text/event-stream")
        .header("content-type", "text/plain")
        .body(Body::empty())
        .unwrap();
    let local_response = from_response(response);
    assert!(!local_response.is_sse());
    assert_eq!(
        local_response.headers.get("content-type").unwrap(),
        "text/plain"
    );
}

#[test]
fn a_header_value_that_is_no_text_is_left_out() {
    let response = Builder::new()
        .status(203)
        .header("x-text", "fine")
        .header("x-bytes", HeaderValue::from_bytes(b"caf\xe9").unwrap())
        .header("x-last", "kept")
        .body(Body::from("still read"))
        .unwrap();
    let local_response = from_response(response);
    assert_eq!(local_response.status_code, 203);
    assert_eq!(local_response.body, b"still read".to_vec());
    assert_eq!(local_response.headers.len(), 2);
    assert_eq!(local_response.headers.get("x-text").unwrap(), "fine");
    assert_eq!(local_response.headers.get("x-last").unwrap(), "kept");
    assert!(local_response.headers.get("x-bytes").is_none());
    assert!(!local_response.is_sse());
}

#[test]
fn a_value_that_is_no_text_replaces_no_earlier_value() {
    let response = Builder::new()
        .status(200)
        .header("content-type", "text/event-stream")
        .header("content-type", HeaderValue::from_bytes(b"\xff").unwrap())
        .body(Body::empty())
        .unwrap();
    let local_response = from_response(response);
    assert_eq!(local_response.status_code, 200);
    assert_eq!(
        local_response.headers.get("content-type").unwrap(),
        "text/event-stream"
    );
    assert!(local_response.is_sse());
}

#[test]
fn a_head_with_no_text_value_at_all_keeps_status_and_body() {
    let response = Builder::new()
        .status(404)
        .header("x-bytes", HeaderValue::from_bytes(b"\x80\x81").unwrap())
        .body(Body::from("gone"))
        .unwrap();
    let (head, _) = response.into_parts();
    let read = LocalResponse::from_response(&head, Some(b"gone".to_vec()));
    assert_eq!(read.status_code, 404);
    assert_eq!(read.body, b"gone".to_vec());
    assert!(read.headers.is_empty());
    let failed = LocalResponse::from_response(&head, None);
    assert_eq!(failed.status_code, 404);
    assert!(failed.body.is_empty());
    assert!(failed.headers.is_empty());
}

#[test]
fn header_names_come_in_lower_case() {
    let response = Builder::new()
        .status(200)
        .header("X-Mixed-Case", "1")
        .header("UPPER", "2")
        .body(Body::empty())
        .unwrap();
    let local_response = from_response(response);
    assert_eq!(local_response.headers.get("x-mixed-case").unwrap(), "1");
    assert_eq!(local_response.headers.get("upper").unwrap(), "2");
    assert!(local_response.headers.get("X-Mixed-Case").is_none());
    assert!(local_response.headers.get("UPPER").is_none());
}

#[test]
fn header_values_of_visible_ascii_are_text() {
    let response = Builder::new()
        .status(200)
        .header("x-text", "fine \t ~")
        .body(Body::empty())
        .unwrap();
    let (head, _) = response.into_parts();
    let local_response = LocalResponse::from_response(&head, Some(vec![1, 2, 3]));
    assert_eq!(local_response.headers.get("x-text").unwrap(), "fine \t ~");
    assert_eq!(local_response.body, vec![1, 2, 3]);
}

#[test]
fn a_body_that_could_not_be_read_leaves_status_and_headers() {
    let response = Builder::new()
        .status(206)
        .header("content-type", "text/event-stream")
        .header("x-test", "kept")
        .body(Body::from("lost"))
        .unwrap();
    let (head, _) = response.into_parts();
    let local_response = LocalResponse::from_response(&head, None);
    assert_eq!(local_response.status_code, 206);
    assert!(local_response.body.is_empty());
    assert_eq!(local_response.headers.get("x-test").unwrap(), "kept");
    assert!(local_response.is_sse());
}

#[test]
fn from_parts_takes_plain_values() {
    let fields = pairs(&[("content-type", "text/html"), ("x-a", "1")]);
    let response = LocalResponse::from_parts(201, &fields, Some(b"made".to_vec()));
    assert_eq!(response.status_code, 201);
    assert_eq!(response.body, b"made".to_vec());
    assert_eq!(response.headers.len(), 2);
    assert_eq!(response.headers.get("content-type").unwrap(), "text/html");
    assert_eq!(response.headers.get("x-a").unwrap(), "1");
    assert!(!response.is_sse);
}

#[test]
fn from_parts_lets_a_later_field_replace_an_earlier_one() {
    let fields = pairs(&[("x-a", "1"), ("x-b", "2"), ("x-a", "3")]);
    let response = LocalResponse::from_parts(200, &fields, None);
    assert_eq!(response.headers.len(), 2);
    assert_eq!(response.headers.get("x-a").unwrap(), "3");
    assert_eq!(response.headers.get("x-b").unwrap(), "2");
    assert!(response.body.is_empty());
}

#[test]
fn from_parts_classifies_by_content_type_alone() {
    let stream = pairs(&[("content-type", "application/x; text/event-stream")]);
    assert!(LocalResponse::from_parts(200, &stream, None).is_sse);
    let upper = pairs(&[("Content-Type", "text/event-stream")]);
    assert!(!LocalResponse::from_parts(200, &upper, None).is_sse);
    let none = pairs(&[]);
    assert!(!LocalResponse::from_parts(200, &none, None).is_sse);
    let close = pairs(&[("content-type", "text/event-strea")]);
    assert!(!LocalResponse::from_parts(200, &close, None).is_sse);
}

#[test]
fn a_captured_answer_goes_back_as_it_is() {
    let captured = LocalResponse::from_parts(404, &pairs(&[("x-a", "1")]), Some(b"no".to_vec()));
    let response = LocalResponse::from_router_result(Ok(captured));
    assert_eq!(response.status_code, 404);
    assert_eq!(response.body, b"no".to_vec());
    assert_eq!(response.headers.get("x-a").unwrap(), "1");
    assert!(!response.is_sse);
}

#[test]
fn a_router_failure_goes_back_as_an_internal_server_error() {
    let response = LocalResponse::from_router_result(Err("router is down".to_string()));
    assert_eq!(response.status_code, 500);
    assert_eq!(response.body, b"An error occured: router is down".to_vec());
    assert!(response.headers.is_empty());
    assert!(!response.is_sse);
}
