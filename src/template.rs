//! The template language: its grammar as spec functions, and the scanner
//! that substitutes tokens according to it.
use vstd::prelude::*;
use vstd::string::*;

use crate::arguments::Arguments;

verus! {

/// Unicode `White_Space`: the characters that may stand around a token's body.
pub open spec fn is_space(c: char) -> bool {
    ('\u{9}' <= c && c <= '\u{d}') || c == ' ' || c == '\u{85}' || c == '\u{a0}'
        || c == '\u{1680}' || ('\u{2000}' <= c && c <= '\u{200a}') || c == '\u{2028}'
        || c == '\u{2029}' || c == '\u{202f}' || c == '\u{205f}' || c == '\u{3000}'
}

/// The characters of a parameter name: ASCII letters and digits, `.`, `-`, `_` and `$`.
pub open spec fn is_name_char(c: char) -> bool {
    ('a' <= c && c <= 'z') || ('A' <= c && c <= 'Z') || ('0' <= c && c <= '9') || c == '.'
        || c == '-' || c == '_' || c == '$'
}

/// The characters that an escaped literal may hold: all but the double quote.
pub open spec fn is_text_char(c: char) -> bool {
    c != '"'
}

/// Number of whitespace characters from position `i` on.
pub open spec fn space_run(s: Seq<char>, i: int) -> nat
    decreases s.len() - i,
{
    if 0 <= i < s.len() && is_space(s[i]) {
        1 + space_run(s, i + 1)
    } else {
        0
    }
}

/// Number of name characters from position `i` on.
pub open spec fn name_run(s: Seq<char>, i: int) -> nat
    decreases s.len() - i,
{
    if 0 <= i < s.len() && is_name_char(s[i]) {
        1 + name_run(s, i + 1)
    } else {
        0
    }
}

/// Number of characters other than `"` from position `i` on.
pub open spec fn text_run(s: Seq<char>, i: int) -> nat
    decreases s.len() - i,
{
    if 0 <= i < s.len() && is_text_char(s[i]) {
        1 + text_run(s, i + 1)
    } else {
        0
    }
}

/// The token that starts at position `i`, if any: its body (a name, or a
/// literal with its two quotes) and its length, braces and whitespace included.
pub open spec fn token_at(s: Seq<char>, i: int) -> Option<(Seq<char>, nat)> {
    if 0 <= i < s.len() && s[i] == '{' {
        let b = i + 1 + space_run(s, i + 1);
        if b < s.len() && s[b] == '"' {
            let q = b + 1 + text_run(s, b + 1);
            let c = q + 1 + space_run(s, q + 1);
            if q < s.len() && c < s.len() && s[c] == '}' {
                Some((s.subrange(b, q + 1), (c + 1 - i) as nat))
            } else {
                None
            }
        } else {
            let e = b + name_run(s, b);
            let c = e + space_run(s, e);
            if b < e && c < s.len() && s[c] == '}' {
                Some((s.subrange(b, e), (c + 1 - i) as nat))
            } else {
                None
            }
        }
    } else {
        None
    }
}

/// The text put in place of a token whose body is `body`.
pub open spec fn replacement(body: Seq<char>, m: Map<Seq<char>, Seq<char>>) -> Seq<char> {
    if body.len() > 0 && body[0] == '"' {
        body.subrange(1, body.len() - 1)
    } else if m.contains_key(body) {
        m[body]
    } else {
        seq!['N', 'o', 'n', 'e']
    }
}

/// The substitution of the template `s` from position `i` on: tokens are
/// taken left to right, and a character that starts no token is kept.
pub open spec fn substitute_from(s: Seq<char>, i: int, m: Map<Seq<char>, Seq<char>>) -> Seq<char>
    decreases s.len() - i,
{
    if 0 <= i < s.len() {
        match token_at(s, i) {
            Some((body, n)) => replacement(body, m) + substitute_from(s, i + n, m),
            None => seq![s[i]] + substitute_from(s, i + 1, m),
        }
    } else {
        Seq::empty()
    }
}

/// The result of substituting `m` into the template `s`.
pub open spec fn substitute(s: Seq<char>, m: Map<Seq<char>, Seq<char>>) -> Seq<char> {
    substitute_from(s, 0, m)
}

fn space_char(c: char) -> (r: bool)
    ensures
        r == is_space(c),
{
    ('\u{9}' <= c && c <= '\u{d}') || c == ' ' || c == '\u{85}' || c == '\u{a0}'
        || c == '\u{1680}' || ('\u{2000}' <= c && c <= '\u{200a}') || c == '\u{2028}'
        || c == '\u{2029}' || c == '\u{202f}' || c == '\u{205f}' || c == '\u{3000}'
}

fn name_char(c: char) -> (r: bool)
    ensures
        r == is_name_char(c),
{
    ('a' <= c && c <= 'z') || ('A' <= c && c <= 'Z') || ('0' <= c && c <= '9') || c == '.'
        || c == '-' || c == '_' || c == '$'
}

/// Position of the first non-whitespace character at or after `i`.
fn skip_spaces(s: &Vec<char>, i: usize) -> (r: usize)
    requires
        i <= s@.len(),
    ensures
        r == i + space_run(s@, i as int),
        r <= s@.len(),
{
    let mut j = i;
    while j < s.len() && space_char(s[j])
        invariant
            i <= j <= s@.len(),
            space_run(s@, i as int) == (j - i) + space_run(s@, j as int),
        decreases s@.len() - j,
    {
        j = j + 1;
    }
    j
}

/// Position of the first character at or after `i` that cannot be part of a name.
fn skip_name(s: &Vec<char>, i: usize) -> (r: usize)
    requires
        i <= s@.len(),
    ensures
        r == i + name_run(s@, i as int),
        r <= s@.len(),
{
    let mut j = i;
    while j < s.len() && name_char(s[j])
        invariant
            i <= j <= s@.len(),
            name_run(s@, i as int) == (j - i) + name_run(s@, j as int),
        decreases s@.len() - j,
    {
        j = j + 1;
    }
    j
}

/// Position of the first `"` at or after `i`, or the length of `s`.
fn skip_text(s: &Vec<char>, i: usize) -> (r: usize)
    requires
        i <= s@.len(),
    ensures
        r == i + text_run(s@, i as int),
        r <= s@.len(),
{
    let mut j = i;
    while j < s.len() && s[j] != '"'
        invariant
            i <= j <= s@.len(),
            text_run(s@, i as int) == (j - i) + text_run(s@, j as int),
        decreases s@.len() - j,
    {
        j = j + 1;
    }
    j
}

/// The token that starts at `i`, if any: where its body starts and ends, and
/// where the token ends.
fn scan_token(s: &Vec<char>, i: usize) -> (r: Option<(usize, usize, usize)>)
    requires
        i < s@.len(),
    ensures
        match r {
            Some((b, e, end)) => {
                &&& i < b < e <= end <= s@.len()
                &&& token_at(s@, i as int) == Some((s@.subrange(b as int, e as int), (end - i) as nat))
            },
            None => token_at(s@, i as int) is None,
        },
{
    let n = s.len();
    if s[i] != '{' {
        return None;
    }
    let b = skip_spaces(s, i + 1);
    if b < s.len() && s[b] == '"' {
        let q = skip_text(s, b + 1);
        if q >= s.len() {
            return None;
        }
        let c = skip_spaces(s, q + 1);
        if c < s.len() && s[c] == '}' {
            Some((b, q + 1, c + 1))
        } else {
            None
        }
    } else {
        let e = skip_name(s, b);
        let c = skip_spaces(s, e);
        if b < e && c < s.len() && s[c] == '}' {
            Some((b, e, c + 1))
        } else {
            None
        }
    }
}

/// The characters of `s`, in order.
fn chars_of(s: &str) -> (r: Vec<char>)
    ensures
        r@ == s@,
{
    let n = s.unicode_len();
    let mut v: Vec<char> = Vec::new();
    let mut i: usize = 0;
    while i < n
        invariant
            i <= n,
            n == s@.len(),
            v@ == s@.subrange(0, i as int),
        decreases n - i,
    {
        v.push(s.get_char(i));
        i = i + 1;
    }
    assert(v@ =~= s@);
    v
}

/// Replaces each token of `template`: a name by its value in `arguments`, or
/// by `None` where it has none; an escaped literal by the text between its quotes.
pub fn substitute_str(template: &str, arguments: &Arguments) -> (r: String)
    ensures
        r@ == substitute(template@, arguments@),
{
    let s = chars_of(template);
    let n = s.len();
    let ghost m = arguments@;
    let mut out = String::new();
    let mut lit: usize = 0;
    let mut i: usize = 0;
    while i < n
        invariant
            s@ == template@,
            m == arguments@,
            n == s@.len(),
            lit <= i <= n,
            out@ + s@.subrange(lit as int, i as int) + substitute_from(s@, i as int, m)
                == substitute(s@, m),
        decreases n - i,
    {
        match scan_token(&s, i) {
            Some((b, e, end)) => {
                let ghost prev = out@;
                out.append(template.substring_char(lit, i));
                let ghost body = s@.subrange(b as int, e as int);
                assert(body[0] == s@[b as int]);
                if s[b] == '"' {
                    out.append(template.substring_char(b + 1, e - 1));
                    assert(body.subrange(1, body.len() - 1) =~= s@.subrange(b + 1, e - 1));
                } else {
                    let name = template.substring_char(b, e);
                    match arguments.get(name) {
                        Some(v) => out.append(v.as_str()),
                        None => {
                            proof {
                                reveal_strlit("None");
                                assert("None"@ =~= seq!['N', 'o', 'n', 'e']);
                            }
                            out.append("None");
                        },
                    }
                }
                assert(out@ == prev + s@.subrange(lit as int, i as int) + replacement(body, m));
                i = end;
                lit = end;
                assert(s@.subrange(lit as int, i as int) =~= Seq::<char>::empty());
            },
            None => {
                assert(s@.subrange(lit as int, i + 1) =~= s@.subrange(lit as int, i as int).push(
                    s@[i as int],
                ));
                i = i + 1;
            },
        }
    }
    out.append(template.substring_char(lit, n));
    out
}

/// Substitution of parameters whose names are known only at run time.
///
/// `{name}` expands to the value given for `name`, or to `None` where none is
/// given; `{"text"}` expands to `text`, which is how a template writes a brace.
/// Whitespace may stand around a name or an escaped literal, as in `{ "foo" }`.
pub trait LateSubstitution: View<V = Seq<char>> {
    fn late_substitution(&self, arguments: Arguments) -> (r: String)
        ensures
            r@ == substitute(self@, arguments@),
    ;
}

impl LateSubstitution for &str {
    fn late_substitution(&self, arguments: Arguments) -> (r: String) {
        substitute_str(*self, &arguments)
    }
}

impl LateSubstitution for String {
    fn late_substitution(&self, arguments: Arguments) -> (r: String) {
        substitute_str(self.as_str(), &arguments)
    }
}

} // verus!
