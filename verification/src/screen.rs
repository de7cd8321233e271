//! Laying a rendering out as the text that goes to the terminal, with or
//! without colour.

use vstd::prelude::*;
use crate::render::texts;
use crate::render::BodyText;
use crate::render::Rendering;

verus! {

/// The colours of the three sections.
#[derive(Clone, Copy, Debug, PartialEq, Eq, Structural)]
pub enum Tint {
    /// The status line.
    Blue,
    /// The header lines.
    Green,
    /// A pretty-printed body.
    Cyan,
}

/// The lines, each followed by a line feed.
pub open spec fn joined_lines(lines: Seq<Seq<char>>) -> Seq<char>
    decreases lines.len(),
{
    if lines.len() == 0 {
        Seq::empty()
    } else {
        joined_lines(lines.drop_last()) + lines.last() + seq!['\n']
    }
}

/// The three sections in order, with a blank line after the status line
/// and another before the body.
pub open spec fn screen_text(status: Seq<char>, headers: Seq<Seq<char>>, body: Seq<char>) -> Seq<
    char,
> {
    status + seq!['\n', '\n'] + joined_lines(headers) + seq!['\n'] + body + seq!['\n']
}

/// Lays three sections out as one text.
pub fn lay_out(status: &str, headers: &Vec<String>, body: &str) -> (text: String)
    ensures
        text@ == screen_text(status@, texts(headers@), body@),
{
    proof {
        reveal_strlit("\n");
        reveal_strlit("\n\n");
    }
    let mut text = String::from_str(status);
    text.append("\n\n");
    let ghost head = text@;
    let mut i: usize = 0;
    while i < headers.len()
        invariant
            i <= headers.len(),
            "\n"@ == seq!['\n'],
            text@ == head + joined_lines(texts(headers@.take(i as int))),
        decreases headers.len() - i,
    {
        proof {
            assert(texts(headers@.take(i + 1)).drop_last() =~= texts(headers@.take(i as int)));
            assert(texts(headers@.take(i + 1)).last() == headers@[i as int]@);
        }
        text.append(headers[i].as_str());
        text.append("\n");
        i = i + 1;
    }
    proof {
        assert(headers@.take(headers.len() as int) =~= headers@);
    }
    text.append("\n");
    text.append(body);
    text.append("\n");
    assert(text@ =~= screen_text(status@, texts(headers@), body@));
    text
}

/// The character that starts a terminal's escape sequences.
pub const ESCAPE: char = '\u{1b}';

/// Whether `part` stands somewhere in `whole`, unbroken.
pub open spec fn holds(whole: Seq<char>, part: Seq<char>) -> bool {
    exists|i: int|
        0 <= i && i + part.len() <= whole.len() && #[trigger] whole.subrange(i, i + part.len())
            == part
}

/// Calls `colored::Colorize::color` on the text and writes the coloured
/// string out with its `Display`. Whether escape codes are added depends on
/// the terminal and on the environment. Either way the result is the text
/// itself or the text between a start sequence and the reset sequence,
/// and the text is altered only where it holds a reset sequence of its
/// own. So the contract claims that a text without an escape character
/// stands unbroken in the result, and nothing more.
#[verifier::external_body]
fn paint(text: &str, tint: Tint) -> (painted: String)
    ensures
        !text@.contains(ESCAPE) ==> holds(painted@, text@),
{
    let color = match tint {
        Tint::Blue => colored::Color::Blue,
        Tint::Green => colored::Color::Green,
        Tint::Cyan => colored::Color::Cyan,
    };
    colored::Colorize::color(text, color).to_string()
}

impl Rendering {
    /// The rendering as text without colour.
    pub fn plain_text(&self) -> (text: String)
        ensures
            text@ == screen_text(self@.status_line, self@.header_lines, self@.body),
    {
        match &self.body {
            BodyText::Verbatim(body) => lay_out(
                self.status_line.as_str(),
                &self.header_lines,
                body.as_str(),
            ),
            BodyText::Pretty(body) => lay_out(
                self.status_line.as_str(),
                &self.header_lines,
                body.as_str(),
            ),
        }
    }

    /// The rendering as text for a terminal: the status line in blue, the
    /// header lines in green, a pretty-printed body in cyan and a verbatim
    /// body as it is. The layout is the same as without colour. Each
    /// coloured section still holds its text, unless that text has an
    /// escape character of its own; which codes stand around it is the
    /// terminal's affair.
    pub fn colored_text(&self) -> (text: String)
        ensures
            exists|status: Seq<char>, headers: Seq<Seq<char>>, body: Seq<char>|
                {
                    &&& text@ == #[trigger] screen_text(status, headers, body)
                    &&& !self@.status_line.contains(ESCAPE) ==> holds(status, self@.status_line)
                    &&& headers.len() == self@.header_lines.len()
                    &&& forall|i: int|
                        0 <= i < headers.len() && !self@.header_lines[i].contains(ESCAPE) ==> holds(
                            #[trigger] headers[i],
                            self@.header_lines[i],
                        )
                    &&& self@.pretty && !self@.body.contains(ESCAPE) ==> holds(body, self@.body)
                    &&& !self@.pretty ==> body == self@.body
                },
    {
        let status = paint(self.status_line.as_str(), Tint::Blue);
        let mut headers: Vec<String> = Vec::new();
        let mut i: usize = 0;
        while i < self.header_lines.len()
            invariant
                i <= self.header_lines.len(),
                headers@.len() == i,
                forall|j: int|
                    0 <= j < i && !self.header_lines@[j]@.contains(ESCAPE) ==> holds(
                        (#[trigger] headers@[j])@,
                        self.header_lines@[j]@,
                    ),
            decreases self.header_lines.len() - i,
        {
            headers.push(paint(self.header_lines[i].as_str(), Tint::Green));
            i = i + 1;
        }
        let body = match &self.body {
            BodyText::Verbatim(body) => body.clone(),
            BodyText::Pretty(body) => paint(body.as_str(), Tint::Cyan),
        };
        lay_out(status.as_str(), &headers, body.as_str())
    }
}

} // verus!
