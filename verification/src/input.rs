//! The input model: what the command line may ask for, and how the raw
//! arguments are checked on the way in.

use vstd::prelude::*;

verus! {

/// Why an argument was refused.
#[derive(Clone, Debug, PartialEq, Eq)]
pub enum ParseError {
    /// The URL argument is not an absolute URL; holds the parser's reason.
    InvalidUrl(String),
    /// A body argument has no `=`; holds the argument.
    MalformedPair(String),
}

/// One `key=value` argument of a POST body.
#[derive(Clone, Debug, PartialEq, Eq)]
pub struct FormPair {
    pub key: String,
    pub value: String,
}

/// Why the URL parser refuses a text, or `None` where it accepts it.
pub uninterp spec fn url_rejection(raw: Seq<char>) -> Option<Seq<char>>;

/// Whether a text is an absolute URL.
pub open spec fn is_absolute_url(raw: Seq<char>) -> bool {
    url_rejection(raw) is None
}

/// Whether `key` and `value` are what stands before and after the first
/// `=` of `raw`.
pub open spec fn splits_at_first_equals(raw: Seq<char>, key: Seq<char>, value: Seq<char>) -> bool {
    !key.contains('=') && raw == key + seq!['='] + value
}

/// A split stands at the first `=`: the key is what comes before it, the
/// value all that comes after it, further `=` included.
pub proof fn lemma_split_stands_at_first_equals(raw: Seq<char>, key: Seq<char>, value: Seq<char>)
    requires
        splits_at_first_equals(raw, key, value),
    ensures
        key.len() < raw.len(),
        raw[key.len() as int] == '=',
        forall|j: int| 0 <= j < key.len() ==> raw[j] != '=',
        key == raw.take(key.len() as int),
        value == raw.skip(key.len() as int + 1),
{
    assert forall|j: int| 0 <= j < key.len() implies raw[j] != '=' by {
        assert(raw[j] == key[j]);
    }
    assert(key =~= raw.take(key.len() as int));
    assert(value =~= raw.skip(key.len() as int + 1));
}

/// A text has one split at most.
pub proof fn lemma_split_is_unique(
    raw: Seq<char>,
    key: Seq<char>,
    value: Seq<char>,
    other_key: Seq<char>,
    other_value: Seq<char>,
)
    requires
        splits_at_first_equals(raw, key, value),
        splits_at_first_equals(raw, other_key, other_value),
    ensures
        key == other_key,
        value == other_value,
{
    lemma_split_stands_at_first_equals(raw, key, value);
    lemma_split_stands_at_first_equals(raw, other_key, other_value);
    if key.len() < other_key.len() {
        assert(raw[key.len() as int] != '=');
    }
    if other_key.len() < key.len() {
        assert(raw[other_key.len() as int] != '=');
    }
}

/// Calls `reqwest::Url`'s `FromStr::from_str`, which is `Url::parse`. The
/// parser reads nothing but its argument, so whether it accepts a text, and
/// the message it refuses it with, depend on the text alone; the contract
/// gives that outcome a name and claims nothing else of it.
#[verifier::external_body]
fn check_url(raw: &str) -> (rejection: Option<String>)
    ensures
        match rejection {
            Some(why) => url_rejection(raw@) == Some(why@),
            None => url_rejection(raw@) is None,
        },
{
    match raw.parse::<reqwest::Url>() {
        Ok(_) => None,
        Err(e) => Some(e.to_string()),
    }
}

/// Decides on a URL argument, given the parser's verdict on it: an
/// accepted text is handed back unchanged, a refused one becomes
/// `InvalidUrl` with the parser's reason.
pub fn accept_url(raw: &str, rejection: Option<String>) -> (r: Result<String, ParseError>)
    ensures
        match rejection {
            None => r matches Ok(url) && url@ == raw@,
            Some(why) => r matches Err(ParseError::InvalidUrl(reason)) && reason@ == why@,
        },
{
    match rejection {
        None => Ok(raw.to_owned()),
        Some(why) => Err(ParseError::InvalidUrl(why)),
    }
}

/// Checks a URL argument. An absolute URL is returned as it was given,
/// without normalization; anything else is `InvalidUrl`.
pub fn parse_url(raw: &str) -> (r: Result<String, ParseError>)
    ensures
        match url_rejection(raw@) {
            None => r matches Ok(url) && url@ == raw@,
            Some(why) => r matches Err(ParseError::InvalidUrl(reason)) && reason@ == why,
        },
{
    accept_url(raw, check_url(raw))
}

/// The position of the first `=` in `raw`, or its length where it has
/// none.
fn find_equals(raw: &str) -> (at: usize)
    ensures
        at <= raw@.len(),
        !raw@.take(at as int).contains('='),
        at < raw@.len() ==> raw@[at as int] == '=',
{
    let n = raw.unicode_len();
    let mut at: usize = 0;
    for c in it: raw.chars()
        invariant
            at == it.index(),
            it.seq() == raw@,
            n == raw@.len(),
            forall|j: int| 0 <= j < at ==> raw@[j] != '=',
    {
        if c == '=' {
            return at;
        }
        at = at + 1;
    }
    at
}

/// Splits a body argument at its first `=`. Either side may be empty, and
/// any further `=` belongs to the value. An argument without `=` is
/// `MalformedPair`, which carries the argument.
pub fn parse_form_pair(raw: &str) -> (r: Result<FormPair, ParseError>)
    ensures
        match r {
            Ok(pair) => raw@.contains('=') && splits_at_first_equals(raw@, pair.key@, pair.value@),
            Err(ParseError::MalformedPair(token)) => !raw@.contains('=') && token@ == raw@,
            Err(ParseError::InvalidUrl(_)) => false,
        },
{
    let n = raw.unicode_len();
    let at = find_equals(raw);
    if at < n {
        let key = raw.substring_char(0, at).to_owned();
        let value = raw.substring_char(at + 1, n).to_owned();
        proof {
            assert(raw@ =~= key@ + seq!['='] + value@);
            assert(raw@.contains('='));
        }
        Ok(FormPair { key, value })
    } else {
        proof {
            assert(raw@.take(at as int) =~= raw@);
        }
        Err(ParseError::MalformedPair(raw.to_owned()))
    }
}

/// An absolute URL, kept as the text it was given as.
#[derive(Debug, PartialEq, Eq)]
pub struct AbsoluteUrl {
    text: String,
}

impl View for AbsoluteUrl {
    type V = Seq<char>;

    closed spec fn view(&self) -> Seq<char> {
        self.text@
    }
}

impl AbsoluteUrl {
    #[verifier::type_invariant]
    spec fn accepted(self) -> bool {
        is_absolute_url(self.text@)
    }

    /// Checks a text with [`parse_url`] and keeps it where it passes.
    pub fn parse(raw: &str) -> (r: Result<AbsoluteUrl, ParseError>)
        ensures
            match url_rejection(raw@) {
                None => r matches Ok(url) && url@ == raw@,
                Some(why) => r matches Err(ParseError::InvalidUrl(reason)) && reason@ == why,
            },
    {
        match parse_url(raw) {
            Ok(text) => Ok(AbsoluteUrl { text }),
            Err(e) => Err(e),
        }
    }

    /// The URL's text, which is an absolute URL.
    pub fn as_str(&self) -> (text: &str)
        ensures
            text@ == self@,
            is_absolute_url(text@),
    {
        proof {
            use_type_invariant(self);
        }
        self.text.as_str()
    }
}

impl Clone for AbsoluteUrl {
    fn clone(&self) -> (copy: Self)
        ensures
            copy@ == self@,
    {
        proof {
            use_type_invariant(self);
        }
        AbsoluteUrl { text: self.text.clone() }
    }
}

/// What the command line asks for.
#[derive(Clone, Debug, PartialEq, Eq)]
pub enum Command {
    Get { url: AbsoluteUrl },
    Post { url: AbsoluteUrl, body: Vec<FormPair> },
}

/// Whether `pairs` are the arguments `tokens`, each split at its first
/// `=`.
pub open spec fn pairs_split(tokens: Seq<String>, pairs: Seq<FormPair>) -> bool {
    &&& pairs.len() == tokens.len()
    &&& forall|i: int|
        0 <= i < tokens.len() ==> splits_at_first_equals(
            (#[trigger] tokens[i])@,
            pairs[i].key@,
            pairs[i].value@,
        )
}

/// Whether every argument has a `=`.
pub open spec fn all_have_equals(tokens: Seq<String>) -> bool {
    forall|i: int| 0 <= i < tokens.len() ==> (#[trigger] tokens[i])@.contains('=')
}

/// Whether `at` is the first argument of `tokens` that has no `=`.
pub open spec fn first_malformed(tokens: Seq<String>, at: int) -> bool {
    &&& 0 <= at < tokens.len()
    &&& !tokens[at]@.contains('=')
    &&& forall|j: int| 0 <= j < at ==> (#[trigger] tokens[j])@.contains('=')
}

/// Splits every body argument, in order. The first argument without `=`
/// fails the whole list with `MalformedPair`.
pub fn parse_pairs(tokens: &Vec<String>) -> (r: Result<Vec<FormPair>, ParseError>)
    ensures
        r is Ok <==> all_have_equals(tokens@),
        match r {
            Ok(pairs) => pairs_split(tokens@, pairs@),
            Err(ParseError::MalformedPair(token)) => exists|at: int|
                first_malformed(tokens@, at) && token@ == (#[trigger] tokens@[at])@,
            Err(ParseError::InvalidUrl(_)) => false,
        },
{
    let mut pairs: Vec<FormPair> = Vec::new();
    let mut i: usize = 0;
    while i < tokens.len()
        invariant
            i <= tokens.len(),
            pairs_split(tokens@.take(i as int), pairs@),
        decreases tokens.len() - i,
    {
        match parse_form_pair(tokens[i].as_str()) {
            Ok(pair) => {
                pairs.push(pair);
            },
            Err(e) => {
                proof {
                    assert(first_malformed(tokens@, i as int)) by {
                        assert forall|j: int| 0 <= j < i implies (#[trigger] tokens@[j])@.contains(
                            '=',
                        ) by {
                            assert(tokens@.take(i as int)[j] == tokens@[j]);
                            let key = pairs@[j].key@;
                            let whole = key + seq!['='] + pairs@[j].value@;
                            assert(whole[key.len() as int] == '=');
                        }
                    }
                }
                return Err(e);
            },
        }
        i = i + 1;
    }
    proof {
        assert(tokens@.take(tokens.len() as int) =~= tokens@);
        assert forall|i: int| 0 <= i < tokens@.len() implies (#[trigger] tokens@[i])@.contains(
            '=',
        ) by {
            let key = pairs@[i].key@;
            let whole = key + seq!['='] + pairs@[i].value@;
            assert(whole[key.len() as int] == '=');
        }
    }
    Ok(pairs)
}

impl Command {
    /// The URL the command is for.
    pub open spec fn url(self) -> Seq<char> {
        match self {
            Command::Get { url } => url@,
            Command::Post { url, .. } => url@,
        }
    }

    /// A GET of `raw_url`, where that is an absolute URL.
    pub fn get(raw_url: &str) -> (r: Result<Command, ParseError>)
        ensures
            match url_rejection(raw_url@) {
                None => r matches Ok(Command::Get { url }) && url@ == raw_url@,
                Some(why) => r matches Err(ParseError::InvalidUrl(reason)) && reason@ == why,
            },
    {
        match AbsoluteUrl::parse(raw_url) {
            Ok(url) => Ok(Command::Get { url }),
            Err(e) => Err(e),
        }
    }

    /// A POST to `raw_url` of the body arguments `tokens`. The URL is
    /// checked first, then the arguments in order; the first that fails
    /// decides the error, and no command is made.
    pub fn post(raw_url: &str, tokens: &Vec<String>) -> (r: Result<Command, ParseError>)
        ensures
            r is Ok <==> is_absolute_url(raw_url@) && all_have_equals(tokens@),
            match r {
                Ok(Command::Post { url, body }) => is_absolute_url(raw_url@) && url@ == raw_url@
                    && pairs_split(tokens@, body@),
                Ok(Command::Get { .. }) => false,
                Err(ParseError::InvalidUrl(reason)) => url_rejection(raw_url@) == Some(reason@),
                Err(ParseError::MalformedPair(token)) => is_absolute_url(raw_url@) && exists|
                    at: int,
                |
                    first_malformed(tokens@, at) && token@ == (#[trigger] tokens@[at])@,
            },
    {
        let url = match AbsoluteUrl::parse(raw_url) {
            Ok(url) => url,
            Err(e) => {
                return Err(e);
            },
        };
        match parse_pairs(tokens) {
            Ok(body) => Ok(Command::Post { url, body }),
            Err(e) => Err(e),
        }
    }
}

} // verus!
