use httpie::render::header_line;
use httpie::render::header_lines;
use httpie::render::pretty_body;
use httpie::render::reason_or_unknown;
use httpie::render::render;
use httpie::render::render_with;
use httpie::render::shows_body_verbatim;
use httpie::render::status_line;
use httpie::render::BodyText;
use httpie::render::Rendering;
use httpie::render::RenderError;
use httpie::response::HeaderEntry;
use httpie::response::ProtocolVersion;
use httpie::response::ResponseBundle;
use httpie::response::Status;

fn header(name: &str, value: &str) -> HeaderEntry {
    HeaderEntry { name: Some(name.to_string()), value: value.to_string() }
}

fn nameless(value: &str) -> HeaderEntry {
    HeaderEntry { name: None, value: value.to_string() }
}

fn response(code: u16, headers: Vec<HeaderEntry>, body: &str) -> ResponseBundle {
    ResponseBundle {
        version: ProtocolVersion::Http11,
        status: Status::from_u16(code).unwrap(),
        headers,
        body: body.to_string(),
    }
}

#[test]
fn status_accepts_three_digit_codes_only() {
    assert!(Status::from_u16(0).is_none());
    assert!(Status::from_u16(99).is_none());
    assert_eq!(Status::from_u16(100).unwrap().as_u16(), 100);
    assert_eq!(Status::from_u16(200).unwrap().as_u16(), 200);
    assert_eq!(Status::from_u16(999).unwrap().as_u16(), 999);
    assert!(Status::from_u16(1000).is_none());
    assert!(Status::from_u16(u16::MAX).is_none());
}

#[test]
fn version_texts() {
    assert_eq!(ProtocolVersion::Http09.text(), "HTTP/0.9");
    assert_eq!(ProtocolVersion::Http10.text(), "HTTP/1.0");
    assert_eq!(ProtocolVersion::Http11.text(), "HTTP/1.1");
    assert_eq!(ProtocolVersion::H2.text(), "HTTP/2.0");
    assert_eq!(ProtocolVersion::H3.text(), "HTTP/3.0");
}

#[test]
fn status_line_is_version_code_reason() {
    let ok = Status::from_u16(200).unwrap();
    assert_eq!(status_line(ProtocolVersion::Http11, ok, "OK"), "HTTP/1.1 200 OK");
    let gone = Status::from_u16(410).unwrap();
    assert_eq!(status_line(ProtocolVersion::H2, gone, "Gone"), "HTTP/2.0 410 Gone");
    let odd = Status::from_u16(907).unwrap();
    assert_eq!(status_line(ProtocolVersion::Http10, odd, ""), "HTTP/1.0 907 ");
}

#[test]
fn status_line_writes_every_digit() {
    for code in 100..=999u16 {
        let line = status_line(ProtocolVersion::Http11, Status::from_u16(code).unwrap(), "x");
        assert_eq!(line, format!("HTTP/1.1 {} x", code));
    }
}

#[test]
fn reason_falls_back_for_unknown_codes() {
    assert_eq!(reason_or_unknown(Some("Not Found".to_string())), "Not Found");
    assert_eq!(reason_or_unknown(None), "<unknown status code>");
}

#[test]
fn header_line_joins_name_and_value() {
    assert_eq!(header_line("content-type", "text/html"), "content-type : text/html");
    assert_eq!(header_line("", ""), " : ");
}

#[test]
fn header_lines_keep_order_and_skip_nameless() {
    let headers = vec![
        header("server", "mock"),
        header("set-cookie", "a=1"),
        nameless("b=2"),
        header("content-length", "7"),
        nameless("ignored"),
    ];
    assert_eq!(
        header_lines(&headers),
        vec!["server : mock", "set-cookie : a=1", "content-length : 7"]
    );
    assert!(header_lines(&vec![]).is_empty());
    assert!(header_lines(&vec![nameless("x")]).is_empty());
}

#[test]
fn only_a_header_name_makes_the_body_verbatim() {
    assert!(!shows_body_verbatim(&vec![]));
    assert!(!shows_body_verbatim(&vec![header("content-type", "application/json")]));
    assert!(!shows_body_verbatim(&vec![header("Content-Type", "application/json")]));
    assert!(!shows_body_verbatim(&vec![nameless("application/json")]));
    assert!(!shows_body_verbatim(&vec![header("application/json; charset=utf-8", "x")]));
    assert!(!shows_body_verbatim(&vec![header("Application/Json", "x")]));
    assert!(shows_body_verbatim(&vec![header("application/json", "")]));
    assert!(shows_body_verbatim(&vec![header("application/json", "whatever")]));
    assert!(shows_body_verbatim(&vec![
        header("server", "mock"),
        nameless("x"),
        header("application/json", "1"),
    ]));
}

#[test]
fn content_type_json_is_pretty_printed() {
    let bundle = response(200, vec![header("Content-Type", "application/json")], "{\"x\":1}");
    let out = render(&bundle).unwrap();
    assert_eq!(out.status_line, "HTTP/1.1 200 OK");
    assert_eq!(out.header_lines, vec!["Content-Type : application/json"]);
    assert_eq!(out.body, BodyText::Pretty("{\n  \"x\": 1\n}".to_string()));
}

#[test]
fn header_named_json_prints_body_verbatim() {
    let bundle = response(200, vec![header("application/json", "irrelevant")], "{\"x\":1}");
    let out = render(&bundle).unwrap();
    assert_eq!(out.body, BodyText::Verbatim("{\"x\":1}".to_string()));
    let not_json = response(200, vec![header("application/json", "")], "plain <b>text</b>");
    let out = render(&not_json).unwrap();
    assert_eq!(out.body, BodyText::Verbatim("plain <b>text</b>".to_string()));
}

#[test]
fn non_json_body_is_refused() {
    for body in ["", "hello", "<html></html>", "{\"a\":}", "{\"a\":1} trailing", "[1,2"] {
        let bundle = response(200, vec![header("content-type", "text/html")], body);
        assert_eq!(render(&bundle), Err(RenderError::BodyNotJson), "{:?}", body);
    }
}

#[test]
fn formatter_failure_is_body_not_json() {
    assert_eq!(pretty_body(Err("broken pipe".to_string())), Err(RenderError::BodyNotJson));
    assert_eq!(pretty_body(Ok("[\n  1\n]".to_string())), Ok(BodyText::Pretty("[\n  1\n]".to_string())));
}

#[test]
fn nested_json_is_indented_by_two_spaces() {
    let bundle = response(200, vec![], "{\"empty\":{},\n\n\"one\":[1],\"s\":\"a,b:{c}\"}");
    let out = render(&bundle).unwrap();
    assert_eq!(
        out.body,
        BodyText::Pretty(
            "{\n  \"empty\": {},\n  \"one\": [\n    1\n  ],\n  \"s\": \"a,b:{c}\"\n}".to_string()
        )
    );
}

#[test]
fn render_looks_up_the_reason_phrase() {
    let cases = [
        (100, "HTTP/1.1 100 Continue"),
        (201, "HTTP/1.1 201 Created"),
        (404, "HTTP/1.1 404 Not Found"),
        (418, "HTTP/1.1 418 I'm a teapot"),
        (500, "HTTP/1.1 500 Internal Server Error"),
        (299, "HTTP/1.1 299 <unknown status code>"),
        (999, "HTTP/1.1 999 <unknown status code>"),
    ];
    for (code, line) in cases {
        let out = render(&response(code, vec![], "null")).unwrap();
        assert_eq!(out.status_line, line);
    }
}

#[test]
fn render_leaves_the_bundle_as_it_was() {
    let bundle = response(503, vec![header("retry-after", "3"), nameless("4")], "[ ]");
    let copy = bundle.clone();
    let out = render(&bundle).unwrap();
    assert_eq!(bundle, copy);
    assert_eq!(out.status_line, "HTTP/1.1 503 Service Unavailable");
    assert_eq!(out.header_lines, vec!["retry-after : 3"]);
    assert_eq!(out.body, BodyText::Pretty("[]".to_string()));
}

#[test]
fn render_with_takes_phrase_and_formatted_body_as_given() {
    let bundle = response(200, vec![header("content-type", "application/json")], "{\"x\":1}");
    assert_eq!(
        render_with(&bundle, Some("Fine".to_string()), Ok("<formatted>".to_string())),
        Ok(Rendering {
            status_line: "HTTP/1.1 200 Fine".to_string(),
            header_lines: vec!["content-type : application/json".to_string()],
            body: BodyText::Pretty("<formatted>".to_string()),
        })
    );
    assert_eq!(
        render_with(&bundle, None, Err("formatter gave up".to_string())),
        Err(RenderError::BodyNotJson)
    );
}

#[test]
fn render_with_ignores_the_formatter_for_a_verbatim_body() {
    let bundle = response(404, vec![header("application/json", "x")], "not json at all");
    let expected = Rendering {
        status_line: "HTTP/1.1 404 <unknown status code>".to_string(),
        header_lines: vec!["application/json : x".to_string()],
        body: BodyText::Verbatim("not json at all".to_string()),
    };
    assert_eq!(render_with(&bundle, None, Err("unused".to_string())), Ok(expected.clone()));
    assert_eq!(render_with(&bundle, None, Ok("unused".to_string())), Ok(expected));
}

#[test]
fn render_with_refuses_a_body_that_is_not_json() {
    let bundle = response(200, vec![], "<html></html>");
    assert_eq!(
        render_with(&bundle, Some("OK".to_string()), Ok("<html></html>".to_string())),
        Err(RenderError::BodyNotJson)
    );
}
