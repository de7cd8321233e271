use httpie::input::ParseError;
use httpie::outcome::advance;
use httpie::outcome::exit_code;
use httpie::outcome::respond;
use httpie::outcome::Failure;
use httpie::outcome::NetworkError;
use httpie::outcome::Stage;
use httpie::render::BodyText;
use httpie::render::RenderError;
use httpie::render::Rendering;
use httpie::response::HeaderEntry;
use httpie::response::ProtocolVersion;
use httpie::response::ResponseBundle;
use httpie::response::Status;

fn bundle_of(code: u16, body: &str) -> ResponseBundle {
    ResponseBundle {
        version: ProtocolVersion::Http11,
        status: Status::from_u16(code).unwrap(),
        headers: vec![HeaderEntry {
            name: Some("content-type".to_string()),
            value: "application/json".to_string(),
        }],
        body: body.to_string(),
    }
}

#[test]
fn messages_name_the_cause() {
    assert_eq!(
        Failure::Parse(ParseError::MalformedPair("oops".to_string())).message(),
        "Failed to parse oops"
    );
    assert_eq!(
        Failure::Parse(ParseError::InvalidUrl("empty host".to_string())).message(),
        "Invalid URL: empty host"
    );
    assert_eq!(
        Failure::Network(NetworkError { cause: "connection refused".to_string() }).message(),
        "Network error: connection refused"
    );
    assert_eq!(Failure::Render(RenderError::BodyNotJson).message(), "Response body is not JSON");
}

#[test]
fn network_failure_stays_a_network_failure() {
    let error = NetworkError { cause: "operation timed out".to_string() };
    let outcome = respond(Err(error.clone()));
    assert_eq!(outcome, Err(Failure::Network(error)));
    assert_eq!(exit_code(&outcome), 1);
}

#[test]
fn any_status_is_a_success() {
    for code in [200u16, 204, 301, 404, 500] {
        let outcome = respond(Ok(bundle_of(code, "{}")));
        assert!(outcome.is_ok());
        assert_eq!(exit_code(&outcome), 0);
    }
}

#[test]
fn render_failure_is_a_failure() {
    let outcome = respond(Ok(bundle_of(200, "Bad Gateway")));
    assert_eq!(outcome, Err(Failure::Render(RenderError::BodyNotJson)));
    assert_eq!(exit_code(&outcome), 1);
}

#[test]
fn exit_code_is_zero_only_after_a_rendering() {
    let shown = Rendering {
        status_line: "HTTP/1.1 500 Internal Server Error".to_string(),
        header_lines: vec![],
        body: BodyText::Verbatim(String::new()),
    };
    assert_eq!(exit_code(&Ok(shown)), 0);
    assert_eq!(exit_code(&Err(Failure::Render(RenderError::BodyNotJson))), 1);
    assert_eq!(exit_code(&Err(Failure::Parse(ParseError::InvalidUrl(String::new())))), 1);
}

#[test]
fn a_good_run_passes_every_stage_once() {
    let mut stage = Stage::Start;
    let mut seen = vec![stage];
    while !matches!(stage, Stage::Exit { .. }) {
        stage = advance(stage, true);
        seen.push(stage);
    }
    assert_eq!(
        seen,
        vec![
            Stage::Start,
            Stage::ParseArgs,
            Stage::Dispatch,
            Stage::AwaitResponse,
            Stage::Render,
            Stage::Exit { success: true },
        ]
    );
}

#[test]
fn a_failure_exits_at_once() {
    for stage in
        [Stage::Start, Stage::ParseArgs, Stage::Dispatch, Stage::AwaitResponse, Stage::Render]
    {
        assert_eq!(advance(stage, false), Stage::Exit { success: false });
    }
}

#[test]
fn the_exit_is_final() {
    for success in [true, false] {
        for went_well in [true, false] {
            assert_eq!(advance(Stage::Exit { success }, went_well), Stage::Exit { success });
        }
    }
}
