use api_request::config::Configuration;
use api_request::exchange::{decode, judge, Event, Exchange, Payload, Phase, State};
use api_request::headers::Headers;
use api_request::failure::{Failure, FailureKind};
use api_request::request::Request;
use futures::{Future, Stream};

fn start(expects_no_body: bool) -> Exchange {
    let request = Request::new(hyper::Method::GET, "/pets".to_string());
    let request = if expects_no_body { request.returns_nothing() } else { request };
    request.execute(&Configuration::new("http://localhost".to_string()))
}

fn transport_error() -> hyper::Error {
    let (sender, body) = hyper::Body::channel();
    sender.abort();
    body.concat2().wait().err().expect("an aborted body gives a transport error")
}

#[test]
fn empty_success_without_expected_body_is_the_empty_payload() {
    match decode(true, 200, Vec::new()) {
        Ok(Payload::Empty) => {},
        _ => panic!("the empty payload was expected"),
    }
}

#[test]
fn body_is_not_read_where_none_is_expected() {
    match decode(true, 204, b"not json".to_vec()) {
        Ok(Payload::Empty) => {},
        _ => panic!("the empty payload was expected"),
    }
}

#[test]
fn empty_success_with_expected_body_fails_to_decode() {
    match decode(false, 200, Vec::new()) {
        Err(failure) => assert_eq!(failure.kind(), FailureKind::Serialization),
        Ok(_) => panic!("an empty body was decoded"),
    }
}

#[test]
fn success_with_json_body_is_decoded() {
    match decode(false, 299, b"{\"id\": 7}".to_vec()) {
        Ok(Payload::Json(value)) => assert_eq!(value["id"], serde_json::Value::from(7)),
        _ => panic!("a JSON payload was expected"),
    }
}

#[test]
fn success_with_malformed_body_fails_to_decode() {
    match decode(false, 200, b"{\"id\": ".to_vec()) {
        Err(Failure::SerializationError(e)) => assert!(e.is_eof()),
        _ => panic!("a failure of decoding was expected"),
    }
}

#[test]
fn not_found_with_json_body_is_an_api_error_with_payload() {
    match decode(false, 404, b"{\"message\":\"not found\"}".to_vec()) {
        Err(Failure::ApiError(e)) => {
            assert_eq!(e.code, 404);
            assert_eq!(e.body, b"{\"message\":\"not found\"}".to_vec());
            let content = e.content.expect("the body is a JSON document");
            assert_eq!(content["message"], serde_json::Value::from("not found"));
        },
        _ => panic!("an API error was expected"),
    }
}

#[test]
fn failure_status_with_other_body_is_an_api_error_without_payload() {
    match decode(true, 500, b"<html>".to_vec()) {
        Err(Failure::ApiError(e)) => {
            assert_eq!(e.code, 500);
            assert_eq!(e.body, b"<html>".to_vec());
            assert!(e.content.is_none());
        },
        _ => panic!("an API error was expected"),
    }
}

#[test]
fn status_below_200_and_from_300_are_api_errors() {
    for status in [199u16, 300u16, 0u16] {
        match decode(false, status, b"null".to_vec()) {
            Err(failure) => assert_eq!(failure.kind(), FailureKind::Api),
            Ok(_) => panic!("status {} was taken for success", status),
        }
    }
}

#[test]
fn exchange_walks_through_its_phases() {
    let exchange = start(false);
    assert_eq!(exchange.phase(), Phase::Built);
    assert!(exchange.outgoing().is_some());
    let exchange = exchange.advance(Event::Dispatched);
    assert_eq!(exchange.phase(), Phase::Sent);
    assert!(exchange.outgoing().is_none());
    let exchange = exchange.advance(Event::Head(200));
    assert_eq!(exchange.phase(), Phase::HeadersReceived);
    let exchange = exchange.advance(Event::Body(b"[1,2]".to_vec()));
    assert_eq!(exchange.phase(), Phase::BodyReceived);
    let exchange = exchange.conclude();
    assert_eq!(exchange.phase(), Phase::Decoded);
    match exchange.outcome() {
        Some(Ok(Payload::Json(value))) => assert_eq!(value[1], serde_json::Value::from(2)),
        _ => panic!("a JSON payload was expected"),
    }
}

#[test]
fn exchange_without_expected_body_ends_with_the_empty_payload() {
    let exchange = start(true)
        .advance(Event::Dispatched)
        .advance(Event::Head(204))
        .advance(Event::Body(Vec::new()))
        .conclude();
    match exchange.outcome() {
        Some(Ok(Payload::Empty)) => {},
        _ => panic!("the empty payload was expected"),
    }
}

#[test]
fn event_out_of_turn_changes_nothing() {
    let exchange = start(false).advance(Event::Head(200));
    assert_eq!(exchange.phase(), Phase::Built);
    let exchange = exchange.advance(Event::Body(Vec::new()));
    assert_eq!(exchange.phase(), Phase::Built);
    let exchange = exchange.conclude();
    assert_eq!(exchange.phase(), Phase::Built);
    assert!(exchange.outcome().is_none());
}

#[test]
fn transport_failure_ends_the_exchange() {
    let exchange = start(false).advance(Event::Dispatched);
    let exchange = exchange.advance(Event::TransportFailed(transport_error()));
    assert_eq!(exchange.phase(), Phase::Failed);
    let exchange = exchange.advance(Event::Head(200));
    assert_eq!(exchange.phase(), Phase::Failed);
    match exchange.outcome() {
        Some(Err(failure)) => assert_eq!(failure.kind(), FailureKind::Transport),
        _ => panic!("a transport failure was expected"),
    }
}

#[test]
fn transport_failure_before_sending_ends_the_exchange() {
    let exchange = start(false).advance(Event::TransportFailed(transport_error()));
    assert_eq!(exchange.phase(), Phase::Failed);
}

#[test]
fn terminal_states_take_no_event() {
    let exchange = start(true)
        .advance(Event::Dispatched)
        .advance(Event::Head(200))
        .advance(Event::Body(Vec::new()))
        .conclude();
    assert_eq!(exchange.phase(), Phase::Decoded);
    let exchange = exchange.advance(Event::TransportFailed(transport_error()));
    assert_eq!(exchange.phase(), Phase::Decoded);
    let exchange = exchange.conclude();
    assert_eq!(exchange.phase(), Phase::Decoded);
    match exchange.state {
        State::Decoded(Payload::Empty) => {},
        _ => panic!("the empty payload was expected"),
    }
}

#[test]
fn dispatch_hands_out_the_request_once() {
    let (sent, request) = start(false).dispatch();
    assert_eq!(sent.phase(), Phase::Sent);
    let request = request.expect("a built exchange holds its request");
    assert_eq!(request.target, "http://localhost/pets");
    let (still, nothing) = sent.dispatch();
    assert_eq!(still.phase(), Phase::Sent);
    assert!(nothing.is_none());
}

#[test]
fn transport_failure_while_receiving_ends_the_exchange() {
    let exchange = start(false).advance(Event::Dispatched).advance(Event::Head(200));
    let exchange = exchange.advance(Event::TransportFailed(transport_error()));
    match exchange.state {
        State::Failed(Failure::TransportError(_)) => {},
        _ => panic!("a transport failure was expected"),
    }
}

#[test]
fn failure_status_ends_with_an_api_error() {
    let exchange = start(true)
        .advance(Event::Dispatched)
        .advance(Event::Head(503))
        .advance(Event::Body(b"\"busy\"".to_vec()))
        .conclude();
    assert_eq!(exchange.phase(), Phase::Failed);
    match exchange.outcome() {
        Some(Err(Failure::ApiError(e))) => {
            assert_eq!(e.code, 503);
            assert_eq!(e.content, Some(serde_json::Value::from("busy")));
        },
        _ => panic!("an API error was expected"),
    }
}

fn document(text: &str) -> Result<serde_json::Value, serde_json::Error> {
    serde_json::from_str(text)
}

#[test]
fn judge_goes_by_status_then_expectation_then_document() {
    match judge(true, 200, Vec::new(), document("")) {
        Ok(Payload::Empty) => {},
        _ => panic!("the empty payload was expected"),
    }
    match judge(false, 200, b"1".to_vec(), document("true")) {
        Ok(Payload::Json(value)) => assert_eq!(value, serde_json::Value::Bool(true)),
        _ => panic!("the document was expected"),
    }
    match judge(false, 200, b"1".to_vec(), document("")) {
        Err(Failure::SerializationError(_)) => {},
        _ => panic!("a failure of decoding was expected"),
    }
    match judge(false, 404, b"raw".to_vec(), document("[]")) {
        Err(Failure::ApiError(e)) => {
            assert_eq!(e.code, 404);
            assert_eq!(e.body, b"raw".to_vec());
            assert_eq!(e.content, Some(serde_json::Value::Array(Vec::new())));
        },
        _ => panic!("an API error was expected"),
    }
    match judge(true, 404, b"raw".to_vec(), document("]")) {
        Err(Failure::ApiError(e)) => assert!(e.content.is_none()),
        _ => panic!("an API error was expected"),
    }
}

#[test]
fn start_goes_by_what_the_parser_made_of_the_target() {
    let parsed = "http://localhost/pets".parse::<hyper::Uri>();
    let exchange = Exchange::start(
        true,
        hyper::Method::DELETE,
        "http://localhost/pets".to_string(),
        Headers::new(),
        "body".to_string(),
        parsed,
    );
    assert!(exchange.expects_no_body);
    match exchange.state {
        State::Built(request) => {
            assert_eq!(request.method, hyper::Method::DELETE);
            assert_eq!(request.uri.host(), Some("localhost"));
            assert_eq!(request.target, "http://localhost/pets");
            assert_eq!(request.headers.len(), 0);
            assert_eq!(request.body, "body");
        },
        _ => panic!("a built exchange was expected"),
    }
    let parsed = "".parse::<hyper::Uri>();
    let exchange = Exchange::start(
        false,
        hyper::Method::GET,
        String::new(),
        Headers::new(),
        String::new(),
        parsed,
    );
    assert!(!exchange.expects_no_body);
    match exchange.state {
        State::Failed(Failure::UriError(_)) => {},
        _ => panic!("a failed exchange was expected"),
    }
}
