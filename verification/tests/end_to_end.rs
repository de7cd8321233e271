use httpie::dispatch::plan_request;
use httpie::dispatch::Method;
use httpie::input::Command;
use httpie::input::ParseError;
use httpie::outcome::exit_code;
use httpie::outcome::respond;
use httpie::outcome::Failure;
use httpie::outcome::NetworkError;
use httpie::response::HeaderEntry;
use httpie::response::ProtocolVersion;
use httpie::response::ResponseBundle;
use httpie::response::Status;

#[test]
fn get_of_a_json_document_is_shown_pretty() {
    let command = Command::get("http://example.test/ok").unwrap();
    let plan = plan_request(&command);
    assert_eq!(plan.method, Method::Get);
    assert_eq!(plan.url, "http://example.test/ok");

    // What a mock server answers with.
    let arrived = ResponseBundle {
        version: ProtocolVersion::Http11,
        status: Status::from_u16(200).unwrap(),
        headers: vec![
            HeaderEntry {
                name: Some("content-type".to_string()),
                value: "application/json".to_string(),
            },
            HeaderEntry { name: Some("content-length".to_string()), value: "7".to_string() },
        ],
        body: "{\"a\":1}".to_string(),
    };
    let outcome = respond(Ok(arrived));
    assert_eq!(exit_code(&outcome), 0);
    let shown = outcome.unwrap();
    assert!(shown.status_line.contains("200"));
    assert_eq!(
        shown.plain_text(),
        "HTTP/1.1 200 OK\n\ncontent-type : application/json\ncontent-length : 7\n\n{\n  \"a\": 1\n}\n"
    );
}

#[test]
fn unreachable_host_ends_in_a_failure() {
    let command = Command::get("http://unreachable.invalid/").unwrap();
    let plan = plan_request(&command);
    assert_eq!(plan.timeout_secs, 10);
    let outcome = respond(Err(NetworkError { cause: "operation timed out".to_string() }));
    assert_eq!(exit_code(&outcome), 1);
    match outcome {
        Err(failure) => assert_eq!(failure.message(), "Network error: operation timed out"),
        Ok(_) => panic!("a failed call was rendered"),
    }
}

#[test]
fn bad_arguments_end_before_any_call() {
    let failure = Failure::Parse(Command::get("example").unwrap_err());
    assert_eq!(failure.message(), "Invalid URL: relative URL without a base");
    let tokens = vec!["a=1".to_string(), "nothing".to_string()];
    let failure = Failure::Parse(Command::post("http://example.test/", &tokens).unwrap_err());
    assert_eq!(failure, Failure::Parse(ParseError::MalformedPair("nothing".to_string())));
    assert_eq!(failure.message(), "Failed to parse nothing");
}
