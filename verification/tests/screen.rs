use httpie::render::BodyText;
use httpie::render::Rendering;
use httpie::screen::lay_out;

fn sample(body: BodyText) -> Rendering {
    Rendering {
        status_line: "HTTP/1.1 200 OK".to_string(),
        header_lines: vec!["a : 1".to_string(), "b : 2".to_string()],
        body,
    }
}

#[test]
fn layout_separates_sections_with_blank_lines() {
    let headers = vec!["h1 : v1".to_string(), "h2 : v2".to_string()];
    assert_eq!(lay_out("STATUS", &headers, "BODY"), "STATUS\n\nh1 : v1\nh2 : v2\n\nBODY\n");
}

#[test]
fn layout_without_headers() {
    assert_eq!(lay_out("S", &vec![], "B"), "S\n\n\nB\n");
    assert_eq!(lay_out("", &vec![], ""), "\n\n\n\n");
}

#[test]
fn plain_text_of_a_rendering() {
    let pretty = sample(BodyText::Pretty("{\n  \"a\": 1\n}".to_string()));
    assert_eq!(pretty.plain_text(), "HTTP/1.1 200 OK\n\na : 1\nb : 2\n\n{\n  \"a\": 1\n}\n");
    let verbatim = sample(BodyText::Verbatim("{\"a\":1}".to_string()));
    assert_eq!(verbatim.plain_text(), "HTTP/1.1 200 OK\n\na : 1\nb : 2\n\n{\"a\":1}\n");
}

// The colour override is one setting for the whole process, so everything
// that sets it stands in this one test.
#[test]
fn colored_text_follows_the_colour_setting() {
    let pretty = sample(BodyText::Pretty("[\n  1\n]".to_string()));
    let verbatim = sample(BodyText::Verbatim("as it came".to_string()));

    colored::control::set_override(true);
    assert_eq!(
        pretty.colored_text(),
        "\u{1b}[34mHTTP/1.1 200 OK\u{1b}[0m\n\n\u{1b}[32ma : 1\u{1b}[0m\n\u{1b}[32mb : 2\u{1b}[0m\n\n\u{1b}[36m[\n  1\n]\u{1b}[0m\n"
    );
    assert_eq!(
        verbatim.colored_text(),
        "\u{1b}[34mHTTP/1.1 200 OK\u{1b}[0m\n\n\u{1b}[32ma : 1\u{1b}[0m\n\u{1b}[32mb : 2\u{1b}[0m\n\nas it came\n"
    );

    colored::control::set_override(false);
    assert_eq!(pretty.colored_text(), pretty.plain_text());
    assert_eq!(verbatim.colored_text(), verbatim.plain_text());

    colored::control::unset_override();
    let text = pretty.colored_text();
    for part in ["HTTP/1.1 200 OK", "a : 1", "b : 2", "[\n  1\n]"] {
        assert!(text.contains(part), "{:?}", text);
    }
}
