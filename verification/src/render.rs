//! Turning a response snapshot into the three sections that are shown:
//! the status line, the header lines and the body.

use vstd::prelude::*;
use crate::json::is_json;
use crate::json::is_json_str;
use crate::response::HeaderEntry;
use crate::response::ProtocolVersion;
use crate::response::ResponseBundle;
use crate::response::Status;

verus! {

/// Why a response could not be rendered.
#[derive(Clone, Copy, Debug, PartialEq, Eq, Structural)]
pub enum RenderError {
    /// The body was to be pretty-printed, and is not JSON or was refused
    /// by the formatter.
    BodyNotJson,
}

/// The body section of a rendering.
#[derive(Clone, Debug, PartialEq, Eq)]
pub enum BodyText {
    /// The response's body, untouched.
    Verbatim(String),
    /// The response's body after pretty-printing.
    Pretty(String),
}

/// The three sections shown for a response, before any colour.
#[derive(Clone, Debug, PartialEq, Eq)]
pub struct Rendering {
    pub status_line: String,
    pub header_lines: Vec<String>,
    pub body: BodyText,
}

/// What a [`Rendering`] holds, as plain text.
pub struct RenderingView {
    pub status_line: Seq<char>,
    pub header_lines: Seq<Seq<char>>,
    pub body: Seq<char>,
    pub pretty: bool,
}

impl View for BodyText {
    type V = Seq<char>;

    open spec fn view(&self) -> Seq<char> {
        match self {
            BodyText::Verbatim(text) => text@,
            BodyText::Pretty(text) => text@,
        }
    }
}

impl View for Rendering {
    type V = RenderingView;

    open spec fn view(&self) -> RenderingView {
        RenderingView {
            status_line: self.status_line@,
            header_lines: texts(self.header_lines@),
            body: self.body@,
            pretty: self.body is Pretty,
        }
    }
}

/// The standard reason phrase of a status code, where it has one.
pub uninterp spec fn reason_phrase(code: u16) -> Option<Seq<char>>;

/// What the JSON formatter makes of a text: the formatted text, or the
/// message it fails with.
pub uninterp spec fn pretty_printed(body: Seq<char>) -> Result<Seq<char>, Seq<char>>;

/// Calls `reqwest::StatusCode::from_u16` and then `canonical_reason` on
/// the status code. The phrase is looked up in a fixed table, so it
/// depends on the code alone; the contract gives that phrase a name and
/// claims nothing else of it. A code without a phrase gives `None`.
#[verifier::external_body]
fn canonical_reason(code: u16) -> (phrase: Option<String>)
    ensures
        match phrase {
            Some(p) => reason_phrase(code) == Some(p@),
            None => reason_phrase(code) is None,
        },
{
    match reqwest::StatusCode::from_u16(code) {
        Ok(status) => status.canonical_reason().map(String::from),
        Err(_) => None,
    }
}

/// Calls `jsonxf::pretty_print`. The formatter reads nothing but its
/// argument, so its result depends on the text alone; the contract gives
/// that result a name and claims nothing else of it.
#[verifier::external_body]
fn pretty_print(body: &str) -> (outcome: Result<String, String>)
    ensures
        match outcome {
            Ok(text) => pretty_printed(body@) == Ok::<Seq<char>, Seq<char>>(text@),
            Err(why) => pretty_printed(body@) == Err::<Seq<char>, Seq<char>>(why@),
        },
{
    jsonxf::pretty_print(body)
}

/// The body section for a body that is to be pretty-printed, given what
/// the formatter made of it.
pub open spec fn pretty_body_of(outcome: Result<Seq<char>, Seq<char>>) -> Result<
    Seq<char>,
    RenderError,
> {
    match outcome {
        Ok(text) => Ok(text),
        Err(_) => Err(RenderError::BodyNotJson),
    }
}

/// The rendering of a response, given the reason phrase of its status
/// code and what the formatter makes of its body. The body is shown
/// verbatim when a header is named `application/json`. Otherwise it has to
/// be JSON, and is shown as the formatter printed it; the formatter's
/// outcome counts only in this second case.
pub open spec fn rendering_of(
    bundle: ResponseBundle,
    phrase: Option<Seq<char>>,
    formatted: Result<Seq<char>, Seq<char>>,
) -> Result<RenderingView, RenderError> {
    let status_line = status_line_of(bundle.version, bundle.status@, reason_text(phrase));
    let header_lines = header_lines_of(bundle.headers@);
    if names_json(bundle.headers@) {
        Ok(RenderingView { status_line, header_lines, body: bundle.body@, pretty: false })
    } else if !is_json(bundle.body@) {
        Err(RenderError::BodyNotJson)
    } else {
        match pretty_body_of(formatted) {
            Ok(body) => Ok(RenderingView { status_line, header_lines, body, pretty: true }),
            Err(e) => Err(e),
        }
    }
}

/// Whether two header lists have the same names, entry by entry.
pub open spec fn same_names(a: Seq<HeaderEntry>, b: Seq<HeaderEntry>) -> bool {
    &&& a.len() == b.len()
    &&& forall|i: int|
        0 <= i < a.len() ==> match ((#[trigger] a[i]).name, (#[trigger] b[i]).name) {
            (Some(x), Some(y)) => x@ == y@,
            (None, None) => true,
            _ => false,
        }
}

/// The choice between the verbatim and the pretty-printed body reads the
/// headers' names and nothing else: header lists with the same names make
/// the same choice, whatever their values are.
pub proof fn lemma_choice_reads_names_only(a: Seq<HeaderEntry>, b: Seq<HeaderEntry>)
    requires
        same_names(a, b),
    ensures
        names_json(a) == names_json(b),
{
    if names_json(a) {
        let i = choose|i: int| 0 <= i < a.len() && is_named_json(#[trigger] a[i]);
        assert(is_named_json(b[i]));
    }
    if names_json(b) {
        let i = choose|i: int| 0 <= i < b.len() && is_named_json(#[trigger] b[i]);
        assert(is_named_json(a[i]));
    }
}

/// With a header named `application/json`, the body is shown as it came,
/// whatever it holds and whatever the formatter would make of it.
pub proof fn lemma_named_json_shows_verbatim(
    bundle: ResponseBundle,
    phrase: Option<Seq<char>>,
    formatted: Result<Seq<char>, Seq<char>>,
)
    requires
        names_json(bundle.headers@),
    ensures
        rendering_of(bundle, phrase, formatted) matches Ok(view) && view.body == bundle.body@
            && !view.pretty,
{
}

/// Without a header named `application/json`, a JSON body that the
/// formatter prints is shown as printed.
pub proof fn lemma_json_body_is_pretty_printed(
    bundle: ResponseBundle,
    phrase: Option<Seq<char>>,
    printed: Seq<char>,
)
    requires
        !names_json(bundle.headers@),
        is_json(bundle.body@),
    ensures
        rendering_of(bundle, phrase, Ok(printed)) matches Ok(view) && view.body == printed
            && view.pretty,
{
}

/// Without a header named `application/json`, a body that is not JSON is
/// never shown: the rendering fails with `BodyNotJson`, and so it does
/// when the formatter fails.
pub proof fn lemma_other_body_is_refused(
    bundle: ResponseBundle,
    phrase: Option<Seq<char>>,
    formatted: Result<Seq<char>, Seq<char>>,
)
    requires
        !names_json(bundle.headers@),
        !is_json(bundle.body@) || formatted is Err,
    ensures
        rendering_of(bundle, phrase, formatted) == Err::<RenderingView, RenderError>(
            RenderError::BodyNotJson,
        ),
{
}

/// The decimal digit `d` as a character.
pub open spec fn digit_char(d: int) -> char {
    if d == 0 {
        '0'
    } else if d == 1 {
        '1'
    } else if d == 2 {
        '2'
    } else if d == 3 {
        '3'
    } else if d == 4 {
        '4'
    } else if d == 5 {
        '5'
    } else if d == 6 {
        '6'
    } else if d == 7 {
        '7'
    } else if d == 8 {
        '8'
    } else {
        '9'
    }
}

/// The three decimal digits of a status code.
pub open spec fn code_digits(code: u16) -> Seq<char> {
    seq![digit_char(code as int / 100), digit_char((code as int / 10) % 10), digit_char(code as int % 10)]
}

/// The reason shown for a status code: its standard phrase, or a fixed
/// text where it has none.
pub open spec fn reason_text(phrase: Option<Seq<char>>) -> Seq<char> {
    match phrase {
        Some(p) => p,
        None => "<unknown status code>"@,
    }
}

/// Version, code and reason, separated by single spaces.
pub open spec fn status_line_of(version: ProtocolVersion, code: u16, reason: Seq<char>) -> Seq<char> {
    version.label() + seq![' '] + code_digits(code) + seq![' '] + reason
}

/// A header's name and value around `" : "`.
pub open spec fn header_line_of(name: Seq<char>, value: Seq<char>) -> Seq<char> {
    name + seq![' ', ':', ' '] + value
}

/// One line for each header that has a name, in the order of the headers.
pub open spec fn header_lines_of(headers: Seq<HeaderEntry>) -> Seq<Seq<char>>
    decreases headers.len(),
{
    if headers.len() == 0 {
        Seq::empty()
    } else {
        let before = header_lines_of(headers.drop_last());
        match headers.last().name {
            Some(name) => before.push(header_line_of(name@, headers.last().value@)),
            None => before,
        }
    }
}

/// Whether a header's *name* is the text `application/json`.
pub open spec fn is_named_json(entry: HeaderEntry) -> bool {
    match entry.name {
        Some(name) => name@ == "application/json"@,
        None => false,
    }
}

/// Whether some header is named `application/json`.
pub open spec fn names_json(headers: Seq<HeaderEntry>) -> bool {
    exists|i: int| 0 <= i < headers.len() && is_named_json(#[trigger] headers[i])
}

/// An outcome of the formatter, as plain text.
pub open spec fn plain(outcome: Result<String, String>) -> Result<Seq<char>, Seq<char>> {
    match outcome {
        Ok(text) => Ok(text@),
        Err(why) => Err(why@),
    }
}

/// The views of a vector of strings.
pub open spec fn texts(lines: Seq<String>) -> Seq<Seq<char>> {
    Seq::new(lines.len(), |i: int| lines[i]@)
}

fn digit_text(d: u16) -> (s: &'static str)
    requires
        d < 10,
    ensures
        s@ == seq![digit_char(d as int)],
{
    proof {
        reveal_strlit("0");
        reveal_strlit("1");
        reveal_strlit("2");
        reveal_strlit("3");
        reveal_strlit("4");
        reveal_strlit("5");
        reveal_strlit("6");
        reveal_strlit("7");
        reveal_strlit("8");
        reveal_strlit("9");
    }
    let s = if d == 0 {
        "0"
    } else if d == 1 {
        "1"
    } else if d == 2 {
        "2"
    } else if d == 3 {
        "3"
    } else if d == 4 {
        "4"
    } else if d == 5 {
        "5"
    } else if d == 6 {
        "6"
    } else if d == 7 {
        "7"
    } else if d == 8 {
        "8"
    } else {
        "9"
    };
    assert(s@ =~= seq![digit_char(d as int)]);
    s
}

/// The reason to show for a status code, given its standard phrase if it
/// has one.
pub fn reason_or_unknown(phrase: Option<String>) -> (reason: String)
    ensures
        reason@ == reason_text(phrase_text(phrase)),
{
    match phrase {
        Some(p) => p,
        None => String::from_str("<unknown status code>"),
    }
}

/// Writes the status line for a version, a status code and a reason.
pub fn status_line(version: ProtocolVersion, status: Status, reason: &str) -> (line: String)
    ensures
        line@ == status_line_of(version, status@, reason@),
{
    proof {
        reveal_strlit(" ");
    }
    let code = status.as_u16();
    let mut line = String::from_str(version.text());
    line.append(" ");
    line.append(digit_text(code / 100));
    line.append(digit_text((code / 10) % 10));
    line.append(digit_text(code % 10));
    line.append(" ");
    line.append(reason);
    assert(line@ =~= status_line_of(version, status@, reason@));
    line
}

/// Writes the line for one named header.
pub fn header_line(name: &str, value: &str) -> (line: String)
    ensures
        line@ == header_line_of(name@, value@),
{
    proof {
        reveal_strlit(" : ");
    }
    let mut line = String::from_str(name);
    line.append(" : ");
    line.append(value);
    assert(line@ =~= header_line_of(name@, value@));
    line
}

/// Writes the header lines: one for each header that has a name, in the
/// order received.
pub fn header_lines(headers: &Vec<HeaderEntry>) -> (lines: Vec<String>)
    ensures
        texts(lines@) == header_lines_of(headers@),
{
    let mut lines: Vec<String> = Vec::new();
    let mut i: usize = 0;
    while i < headers.len()
        invariant
            i <= headers.len(),
            texts(lines@) =~= header_lines_of(headers@.take(i as int)),
        decreases headers.len() - i,
    {
        let entry = &headers[i];
        proof {
            assert(headers@.take(i + 1).drop_last() =~= headers@.take(i as int));
            assert(headers@.take(i + 1).last() == headers@[i as int]);
        }
        match &entry.name {
            Some(name) => {
                let line = header_line(name.as_str(), entry.value.as_str());
                lines.push(line);
            },
            None => {},
        }
        i = i + 1;
    }
    proof {
        assert(headers@.take(headers.len() as int) =~= headers@);
    }
    lines
}

/// Decides whether the body is shown as it is: that is so when some
/// header's name (not its value) is `application/json`.
///
/// Known defect, kept for compatibility: the test reads header names, where
/// one would expect it to read the value of `Content-Type`. A response of
/// type `application/json` therefore has no such name and is
/// pretty-printed.
pub fn shows_body_verbatim(headers: &Vec<HeaderEntry>) -> (verbatim: bool)
    ensures
        verbatim == names_json(headers@),
{
    let wanted = String::from_str("application/json");
    let mut i: usize = 0;
    while i < headers.len()
        invariant
            i <= headers.len(),
            wanted@ == "application/json"@,
            forall|j: int| 0 <= j < i ==> !is_named_json(#[trigger] headers@[j]),
        decreases headers.len() - i,
    {
        match &headers[i].name {
            Some(name) => {
                if *name == wanted {
                    return true;
                }
            },
            None => {},
        }
        i = i + 1;
    }
    false
}

/// Turns the formatter's outcome into the body section: its text on
/// success, `BodyNotJson` on failure.
pub fn pretty_body(outcome: Result<String, String>) -> (body: Result<BodyText, RenderError>)
    ensures
        match body {
            Ok(text) => text is Pretty && pretty_body_of(plain(outcome)) == Ok::<
                Seq<char>,
                RenderError,
            >(text@),
            Err(e) => pretty_body_of(plain(outcome)) == Err::<Seq<char>, RenderError>(e),
        },
{
    match outcome {
        Ok(text) => Ok(BodyText::Pretty(text)),
        Err(_) => Err(RenderError::BodyNotJson),
    }
}

/// A reason phrase as plain text.
pub open spec fn phrase_text(phrase: Option<String>) -> Option<Seq<char>> {
    match phrase {
        Some(p) => Some(p@),
        None => None,
    }
}

/// Renders a response, given the reason phrase of its status code, if it
/// has one, and what the formatter made of its body. The body is shown as
/// it is when a header is named `application/json`; otherwise it has to be
/// JSON and the formatter has to have printed it, or the rendering fails
/// with `BodyNotJson`. Nothing is rendered in part: a failure yields no
/// section at all.
pub fn render_with(
    bundle: &ResponseBundle,
    phrase: Option<String>,
    formatted: Result<String, String>,
) -> (r: Result<Rendering, RenderError>)
    ensures
        match r {
            Ok(out) => rendering_of(*bundle, phrase_text(phrase), plain(formatted)) == Ok::<
                RenderingView,
                RenderError,
            >(out@),
            Err(e) => rendering_of(*bundle, phrase_text(phrase), plain(formatted)) == Err::<
                RenderingView,
                RenderError,
            >(e),
        },
{
    let reason = reason_or_unknown(phrase);
    let status_line = status_line(bundle.version, bundle.status, reason.as_str());
    let header_lines = header_lines(&bundle.headers);
    let body = if shows_body_verbatim(&bundle.headers) {
        BodyText::Verbatim(bundle.body.clone())
    } else if !is_json_str(bundle.body.as_str()) {
        return Err(RenderError::BodyNotJson);
    } else {
        match pretty_body(formatted) {
            Ok(text) => text,
            Err(e) => {
                return Err(e);
            },
        }
    };
    Ok(Rendering { status_line, header_lines, body })
}

/// Renders a response: looks up the reason phrase of its status code, has
/// the formatter print its body, and renders it with [`render_with`].
pub fn render(bundle: &ResponseBundle) -> (r: Result<Rendering, RenderError>)
    ensures
        match r {
            Ok(out) => rendering_of(
                *bundle,
                reason_phrase(bundle.status@),
                pretty_printed(bundle.body@),
            ) == Ok::<RenderingView, RenderError>(out@),
            Err(e) => rendering_of(
                *bundle,
                reason_phrase(bundle.status@),
                pretty_printed(bundle.body@),
            ) == Err::<RenderingView, RenderError>(e),
        },
{
    let phrase = canonical_reason(bundle.status.as_u16());
    let formatted = pretty_print(bundle.body.as_str());
    render_with(bundle, phrase, formatted)
}

} // verus!
