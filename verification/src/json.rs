//! Recognizing JSON: whether a text is one JSON value, with nothing but
//! whitespace around it.
//!
//! The grammar is read off the text's UTF-8 bytes. All of its structure is
//! ASCII, and inside a string every byte from `0x20` up is allowed, so no
//! character has to be decoded.

use vstd::prelude::*;
use vstd::utf8::encode_utf8;

verus! {

pub const QUOTE: u8 = 0x22;

pub const BACKSLASH: u8 = 0x5C;

pub const COMMA: u8 = 0x2C;

pub const COLON: u8 = 0x3A;

pub const LEFT_BRACKET: u8 = 0x5B;

pub const RIGHT_BRACKET: u8 = 0x5D;

pub const LEFT_BRACE: u8 = 0x7B;

pub const RIGHT_BRACE: u8 = 0x7D;

pub const MINUS: u8 = 0x2D;

pub const PLUS: u8 = 0x2B;

pub const DOT: u8 = 0x2E;

pub const ZERO: u8 = 0x30;

/// Space, tab, line feed or carriage return.
pub open spec fn is_space(b: u8) -> bool {
    b == 0x20 || b == 0x09 || b == 0x0A || b == 0x0D
}

/// `0` to `9`.
pub open spec fn is_digit(b: u8) -> bool {
    0x30 <= b <= 0x39
}

/// A digit, `A` to `F` or `a` to `f`.
pub open spec fn is_hex_digit(b: u8) -> bool {
    is_digit(b) || 0x41 <= b <= 0x46 || 0x61 <= b <= 0x66
}

/// What may follow a backslash by itself: `"`, `\`, `/`, `b`, `f`, `n`,
/// `r` or `t`.
pub open spec fn is_escape_letter(b: u8) -> bool {
    b == 0x22 || b == 0x5C || b == 0x2F || b == 0x62 || b == 0x66 || b == 0x6E || b == 0x72 || b
        == 0x74
}

/// `e` or `E`.
pub open spec fn is_exponent_mark(b: u8) -> bool {
    b == 0x65 || b == 0x45
}

/// The first position from `i` on that holds no whitespace.
pub open spec fn after_spaces(s: Seq<u8>, i: int) -> int
    decreases s.len() - i,
{
    if 0 <= i < s.len() && is_space(s[i]) {
        after_spaces(s, i + 1)
    } else {
        i
    }
}

/// The first position from `i` on that holds no digit.
pub open spec fn after_digits(s: Seq<u8>, i: int) -> int
    decreases s.len() - i,
{
    if 0 <= i < s.len() && is_digit(s[i]) {
        after_digits(s, i + 1)
    } else {
        i
    }
}

/// Whether a `\u` escape with its four hex digits starts at `i`.
pub open spec fn unicode_escape_at(s: Seq<u8>, i: int) -> bool {
    &&& 0 <= i
    &&& i + 5 < s.len()
    &&& s[i] == BACKSLASH
    &&& s[i + 1] == 0x75
    &&& is_hex_digit(s[i + 2])
    &&& is_hex_digit(s[i + 3])
    &&& is_hex_digit(s[i + 4])
    &&& is_hex_digit(s[i + 5])
}

/// Where the string ends whose opening quote stands just before `i`: the
/// position after its closing quote. `None` where it is never closed, or
/// holds a control byte or a backslash that starts no escape.
pub open spec fn string_end(s: Seq<u8>, i: int) -> Option<int>
    decreases s.len() - i,
{
    if i < 0 || i >= s.len() {
        None
    } else if s[i] == QUOTE {
        Some(i + 1)
    } else if s[i] == BACKSLASH {
        if i + 1 < s.len() && is_escape_letter(s[i + 1]) {
            string_end(s, i + 2)
        } else if unicode_escape_at(s, i) {
            string_end(s, i + 6)
        } else {
            None
        }
    } else if s[i] < 0x20 {
        None
    } else {
        string_end(s, i + 1)
    }
}

/// Where a number's fraction and exponent end, if they are well formed,
/// given where its integer part ended.
pub open spec fn number_tail_end(s: Seq<u8>, whole: int) -> Option<int> {
    let fraction = if whole < s.len() && s[whole] == DOT {
        if whole + 1 < s.len() && is_digit(s[whole + 1]) {
            Some(after_digits(s, whole + 1))
        } else {
            None
        }
    } else {
        Some(whole)
    };
    match fraction {
        None => None,
        Some(m) => if m < s.len() && is_exponent_mark(s[m]) {
            let d = if m + 1 < s.len() && (s[m + 1] == PLUS || s[m + 1] == MINUS) {
                m + 2
            } else {
                m + 1
            };
            if d < s.len() && is_digit(s[d]) {
                Some(after_digits(s, d))
            } else {
                None
            }
        } else {
            Some(m)
        },
    }
}

/// Where the number that starts at `i` ends. An optional `-`, then `0` or
/// digits that do not start with `0`, then an optional fraction and an
/// optional exponent.
pub open spec fn number_end(s: Seq<u8>, i: int) -> Option<int> {
    let first = if 0 <= i < s.len() && s[i] == MINUS {
        i + 1
    } else {
        i
    };
    if 0 <= first < s.len() && is_digit(s[first]) {
        let whole = if s[first] == ZERO {
            first + 1
        } else {
            after_digits(s, first)
        };
        number_tail_end(s, whole)
    } else {
        None
    }
}

/// Whether the four bytes from `i` on are `a`, `b`, `c`, `d`.
pub open spec fn four_at(s: Seq<u8>, i: int, a: u8, b: u8, c: u8, d: u8) -> bool {
    0 <= i && i + 4 <= s.len() && s[i] == a && s[i + 1] == b && s[i + 2] == c && s[i + 3] == d
}

/// Where the string, number, `true`, `false` or `null` that starts at `i`
/// ends.
pub open spec fn scalar_end(s: Seq<u8>, i: int) -> Option<int> {
    if i < 0 || i >= s.len() {
        None
    } else if s[i] == QUOTE {
        string_end(s, i + 1)
    } else if s[i] == MINUS || is_digit(s[i]) {
        number_end(s, i)
    } else if four_at(s, i, 0x74, 0x72, 0x75, 0x65) {
        Some(i + 4)
    } else if four_at(s, i, 0x6E, 0x75, 0x6C, 0x6C) {
        Some(i + 4)
    } else if four_at(s, i, 0x66, 0x61, 0x6C, 0x73) && i + 4 < s.len() && s[i + 4] == 0x65 {
        Some(i + 5)
    } else {
        None
    }
}

/// Skipping whitespace moves forward and stays inside the text.
pub proof fn lemma_after_spaces(s: Seq<u8>, i: int)
    requires
        0 <= i <= s.len(),
    ensures
        i <= after_spaces(s, i) <= s.len(),
    decreases s.len() - i,
{
    if i < s.len() && is_space(s[i]) {
        lemma_after_spaces(s, i + 1);
    }
}

/// Skipping digits moves forward and stays inside the text.
pub proof fn lemma_after_digits(s: Seq<u8>, i: int)
    requires
        0 <= i <= s.len(),
    ensures
        i <= after_digits(s, i) <= s.len(),
    decreases s.len() - i,
{
    if i < s.len() && is_digit(s[i]) {
        lemma_after_digits(s, i + 1);
    }
}

/// A string ends after where it began, inside the text.
pub proof fn lemma_string_end(s: Seq<u8>, i: int)
    requires
        0 <= i,
    ensures
        string_end(s, i) matches Some(e) ==> i < e <= s.len(),
    decreases s.len() - i,
{
    if i < s.len() && s[i] != QUOTE {
        if s[i] == BACKSLASH {
            if i + 1 < s.len() && is_escape_letter(s[i + 1]) {
                lemma_string_end(s, i + 2);
            } else if unicode_escape_at(s, i) {
                lemma_string_end(s, i + 6);
            }
        } else if s[i] >= 0x20 {
            lemma_string_end(s, i + 1);
        }
    }
}

/// A string, number or literal takes up at least one byte and ends inside
/// the text.
pub proof fn lemma_scalar_end(s: Seq<u8>, i: int)
    requires
        0 <= i,
    ensures
        scalar_end(s, i) matches Some(e) ==> i < e <= s.len(),
{
    if i < s.len() {
        if s[i] == QUOTE {
            lemma_string_end(s, i + 1);
        } else if s[i] == MINUS || is_digit(s[i]) {
            let first = if s[i] == MINUS {
                i + 1
            } else {
                i
            };
            if first < s.len() && is_digit(s[first]) {
                lemma_after_digits(s, first);
                let whole = if s[first] == ZERO {
                    first + 1
                } else {
                    after_digits(s, first)
                };
                if whole + 1 < s.len() {
                    lemma_after_digits(s, whole + 1);
                }
                let m = if whole < s.len() && s[whole] == DOT {
                    after_digits(s, whole + 1)
                } else {
                    whole
                };
                if m + 1 < s.len() {
                    lemma_after_digits(s, m + 1);
                }
                if m + 2 < s.len() {
                    lemma_after_digits(s, m + 2);
                }
            }
        }
    }
}

/// What the grammar allows next.
#[derive(Clone, Copy, Debug, PartialEq, Eq, Structural)]
pub enum Expect {
    /// A value.
    Value,
    /// A value, or the `]` of an empty array.
    ValueOrClose,
    /// A member's key, or the `}` of an empty object.
    KeyOrClose,
    /// A member's key.
    Key,
    /// The `:` after a key.
    Colon,
    /// After a value: a `,`, the end of the innermost open array or object,
    /// or the end of the text where none is open.
    CommaOrClose,
}

/// Whether the bytes from `i` on complete a JSON text, where `open` lists
/// the arrays (`false`) and objects (`true`) that are open at `i`, the
/// innermost last, and `expect` says what may come next.
pub open spec fn accepts(s: Seq<u8>, i: int, open: Seq<bool>, expect: Expect) -> bool
    decreases s.len() - i,
{
    if i < 0 || i > s.len() {
        false
    } else {
        let j = after_spaces(s, i);
        proof {
            lemma_after_spaces(s, i);
            lemma_scalar_end(s, j);
        }
        if j >= s.len() {
            expect == Expect::CommaOrClose && open.len() == 0
        } else if expect == Expect::Value || expect == Expect::ValueOrClose {
            if s[j] == LEFT_BRACKET {
                accepts(s, j + 1, open.push(false), Expect::ValueOrClose)
            } else if s[j] == LEFT_BRACE {
                accepts(s, j + 1, open.push(true), Expect::KeyOrClose)
            } else if expect == Expect::ValueOrClose && s[j] == RIGHT_BRACKET {
                open.len() > 0 && !open.last() && accepts(
                    s,
                    j + 1,
                    open.drop_last(),
                    Expect::CommaOrClose,
                )
            } else {
                match scalar_end(s, j) {
                    Some(e) => accepts(s, e, open, Expect::CommaOrClose),
                    None => false,
                }
            }
        } else if expect == Expect::KeyOrClose || expect == Expect::Key {
            if expect == Expect::KeyOrClose && s[j] == RIGHT_BRACE {
                open.len() > 0 && open.last() && accepts(
                    s,
                    j + 1,
                    open.drop_last(),
                    Expect::CommaOrClose,
                )
            } else if s[j] == QUOTE {
                match scalar_end(s, j) {
                    Some(e) => accepts(s, e, open, Expect::Colon),
                    None => false,
                }
            } else {
                false
            }
        } else if expect == Expect::Colon {
            s[j] == COLON && accepts(s, j + 1, open, Expect::Value)
        } else if open.len() == 0 {
            false
        } else if s[j] == COMMA {
            accepts(
                s,
                j + 1,
                open,
                if open.last() {
                    Expect::Key
                } else {
                    Expect::Value
                },
            )
        } else if s[j] == RIGHT_BRACE {
            open.last() && accepts(s, j + 1, open.drop_last(), Expect::CommaOrClose)
        } else if s[j] == RIGHT_BRACKET {
            !open.last() && accepts(s, j + 1, open.drop_last(), Expect::CommaOrClose)
        } else {
            false
        }
    }
}

/// Whether the bytes are one JSON value with nothing but whitespace
/// around it.
pub open spec fn is_json_text(s: Seq<u8>) -> bool {
    accepts(s, 0, Seq::empty(), Expect::Value)
}

/// Whether a text is JSON, going by its UTF-8 bytes.
pub open spec fn is_json(text: Seq<char>) -> bool {
    is_json_text(encode_utf8(text))
}

fn skip_spaces(s: &[u8], i: usize) -> (j: usize)
    requires
        i <= s@.len(),
    ensures
        j == after_spaces(s@, i as int),
        i <= j <= s@.len(),
{
    let mut j = i;
    while j < s.len() && (s[j] == 0x20 || s[j] == 0x09 || s[j] == 0x0A || s[j] == 0x0D)
        invariant
            i <= j <= s@.len(),
            after_spaces(s@, i as int) == after_spaces(s@, j as int),
        decreases s@.len() - j,
    {
        j = j + 1;
    }
    j
}

fn skip_digits(s: &[u8], i: usize) -> (j: usize)
    requires
        i <= s@.len(),
    ensures
        j == after_digits(s@, i as int),
        i <= j <= s@.len(),
{
    let mut j = i;
    while j < s.len() && 0x30 <= s[j] && s[j] <= 0x39
        invariant
            i <= j <= s@.len(),
            after_digits(s@, i as int) == after_digits(s@, j as int),
        decreases s@.len() - j,
    {
        j = j + 1;
    }
    j
}

fn hex_digit(b: u8) -> (yes: bool)
    ensures
        yes == is_hex_digit(b),
{
    (0x30 <= b && b <= 0x39) || (0x41 <= b && b <= 0x46) || (0x61 <= b && b <= 0x66)
}

fn escape_letter(b: u8) -> (yes: bool)
    ensures
        yes == is_escape_letter(b),
{
    b == 0x22 || b == 0x5C || b == 0x2F || b == 0x62 || b == 0x66 || b == 0x6E || b == 0x72 || b
        == 0x74
}

/// Scans a string from just after its opening quote.
fn scan_string(s: &[u8], i: usize) -> (end: Option<usize>)
    requires
        i <= s@.len(),
    ensures
        match end {
            Some(e) => string_end(s@, i as int) == Some(e as int) && i < e <= s@.len(),
            None => string_end(s@, i as int) is None,
        },
{
    let n = s.len();
    let mut j = i;
    while j < n
        invariant
            n == s@.len(),
            i <= j <= n,
            string_end(s@, i as int) == string_end(s@, j as int),
        decreases n - j,
    {
        let b = s[j];
        if b == QUOTE {
            return Some(j + 1);
        } else if b == BACKSLASH {
            if n - j > 1 && escape_letter(s[j + 1]) {
                j = j + 2;
            } else if n - j > 5 && s[j + 1] == 0x75 && hex_digit(s[j + 2]) && hex_digit(s[j + 3])
                && hex_digit(s[j + 4]) && hex_digit(s[j + 5]) {
                j = j + 6;
            } else {
                return None;
            }
        } else if b < 0x20 {
            return None;
        } else {
            j = j + 1;
        }
    }
    None
}

/// Scans a number's fraction and exponent from where its integer part
/// ended.
fn scan_number_tail(s: &[u8], whole: usize) -> (end: Option<usize>)
    requires
        whole <= s@.len(),
    ensures
        match end {
            Some(e) => number_tail_end(s@, whole as int) == Some(e as int) && whole <= e <= s@.len(),
            None => number_tail_end(s@, whole as int) is None,
        },
{
    let n = s.len();
    let mut m = whole;
    if m < n && s[m] == DOT {
        if n - m > 1 && 0x30 <= s[m + 1] && s[m + 1] <= 0x39 {
            m = skip_digits(s, m + 1);
        } else {
            return None;
        }
    }
    if m < n && (s[m] == 0x65 || s[m] == 0x45) {
        let d = if n - m > 1 && (s[m + 1] == PLUS || s[m + 1] == MINUS) {
            m + 2
        } else {
            m + 1
        };
        if d < n && 0x30 <= s[d] && s[d] <= 0x39 {
            Some(skip_digits(s, d))
        } else {
            None
        }
    } else {
        Some(m)
    }
}

/// Scans a number from its first byte.
fn scan_number(s: &[u8], i: usize) -> (end: Option<usize>)
    requires
        i < s@.len(),
    ensures
        match end {
            Some(e) => number_end(s@, i as int) == Some(e as int) && i < e <= s@.len(),
            None => number_end(s@, i as int) is None,
        },
{
    let n = s.len();
    let first = if s[i] == MINUS {
        i + 1
    } else {
        i
    };
    if first < n && 0x30 <= s[first] && s[first] <= 0x39 {
        let whole = if s[first] == ZERO {
            first + 1
        } else {
            skip_digits(s, first)
        };
        proof {
            lemma_after_digits(s@, first + 1);
        }
        scan_number_tail(s, whole)
    } else {
        None
    }
}

/// Scans a string, a number, `true`, `false` or `null` from its first
/// byte.
fn scan_scalar(s: &[u8], i: usize) -> (end: Option<usize>)
    requires
        i < s@.len(),
    ensures
        match end {
            Some(e) => scalar_end(s@, i as int) == Some(e as int) && i < e <= s@.len(),
            None => scalar_end(s@, i as int) is None,
        },
{
    let n = s.len();
    let b = s[i];
    if b == QUOTE {
        scan_string(s, i + 1)
    } else if b == MINUS || (0x30 <= b && b <= 0x39) {
        scan_number(s, i)
    } else if n - i >= 4 && b == 0x74 && s[i + 1] == 0x72 && s[i + 2] == 0x75 && s[i + 3] == 0x65 {
        Some(i + 4)
    } else if n - i >= 4 && b == 0x6E && s[i + 1] == 0x75 && s[i + 2] == 0x6C && s[i + 3] == 0x6C {
        Some(i + 4)
    } else if n - i >= 5 && b == 0x66 && s[i + 1] == 0x61 && s[i + 2] == 0x6C && s[i + 3] == 0x73
        && s[i + 4] == 0x65 {
        Some(i + 5)
    } else {
        None
    }
}

/// Tells whether a text is one JSON value with nothing but whitespace
/// around it.
pub fn is_json_str(text: &str) -> (valid: bool)
    ensures
        valid == is_json(text@),
{
    let s = text.as_bytes();
    let n = s.len();
    let mut open: Vec<bool> = Vec::new();
    let mut expect = Expect::Value;
    let mut i: usize = 0;
    loop
        invariant
            n == s@.len(),
            s@ == encode_utf8(text@),
            i <= n,
            is_json(text@) == accepts(s@, i as int, open@, expect),
        decreases n - i,
    {
        let j = skip_spaces(s, i);
        if j >= n {
            return expect == Expect::CommaOrClose && open.len() == 0;
        }
        let b = s[j];
        let ghost before = open@;
        match expect {
            Expect::Value | Expect::ValueOrClose => {
                if b == LEFT_BRACKET {
                    open.push(false);
                    expect = Expect::ValueOrClose;
                    i = j + 1;
                } else if b == LEFT_BRACE {
                    open.push(true);
                    expect = Expect::KeyOrClose;
                    i = j + 1;
                } else if expect == Expect::ValueOrClose && b == RIGHT_BRACKET {
                    if open.len() == 0 || open[open.len() - 1] {
                        return false;
                    }
                    open.pop();
                    expect = Expect::CommaOrClose;
                    i = j + 1;
                } else {
                    match scan_scalar(s, j) {
                        Some(e) => {
                            expect = Expect::CommaOrClose;
                            i = e;
                        },
                        None => {
                            return false;
                        },
                    }
                }
            },
            Expect::KeyOrClose | Expect::Key => {
                if expect == Expect::KeyOrClose && b == RIGHT_BRACE {
                    if open.len() == 0 || !open[open.len() - 1] {
                        return false;
                    }
                    open.pop();
                    expect = Expect::CommaOrClose;
                    i = j + 1;
                } else if b == QUOTE {
                    match scan_scalar(s, j) {
                        Some(e) => {
                            expect = Expect::Colon;
                            i = e;
                        },
                        None => {
                            return false;
                        },
                    }
                } else {
                    return false;
                }
            },
            Expect::Colon => {
                if b != COLON {
                    return false;
                }
                expect = Expect::Value;
                i = j + 1;
            },
            Expect::CommaOrClose => {
                if open.len() == 0 {
                    return false;
                }
                let in_object = open[open.len() - 1];
                if b == COMMA {
                    expect = if in_object {
                        Expect::Key
                    } else {
                        Expect::Value
                    };
                    i = j + 1;
                } else if b == RIGHT_BRACE && in_object {
                    open.pop();
                    i = j + 1;
                } else if b == RIGHT_BRACKET && !in_object {
                    open.pop();
                    i = j + 1;
                } else {
                    return false;
                }
            },
        }
    }
}

} // verus!
