//! Properties of substitution that hold for every template and mapping.
use vstd::prelude::*;

use crate::template::{
    is_name_char, is_space, is_text_char, name_run, replacement, space_run, substitute,
    substitute_from, text_run, token_at,
};

verus! {

/// A parameter name: one or more name characters.
pub open spec fn is_name(k: Seq<char>) -> bool {
    k.len() > 0 && forall|j: int| 0 <= j < k.len() ==> is_name_char(#[trigger] k[j])
}

/// The template `{k}`.
pub open spec fn braced(k: Seq<char>) -> Seq<char> {
    seq!['{'] + k + seq!['}']
}

/// The fallback text for a name with no value.
pub open spec fn fallback() -> Seq<char> {
    seq!['N', 'o', 'n', 'e']
}

proof fn lemma_space_run(s: Seq<char>, i: int, e: int)
    requires
        0 <= i <= e <= s.len(),
        forall|j: int| i <= j < e ==> is_space(#[trigger] s[j]),
        e == s.len() || !is_space(s[e]),
    ensures
        space_run(s, i) == e - i,
    decreases e - i,
{
    if i < e {
        lemma_space_run(s, i + 1, e);
    }
}

proof fn lemma_name_run(s: Seq<char>, i: int, e: int)
    requires
        0 <= i <= e <= s.len(),
        forall|j: int| i <= j < e ==> is_name_char(#[trigger] s[j]),
        e == s.len() || !is_name_char(s[e]),
    ensures
        name_run(s, i) == e - i,
    decreases e - i,
{
    if i < e {
        lemma_name_run(s, i + 1, e);
    }
}

proof fn lemma_text_run(s: Seq<char>, i: int, e: int)
    requires
        0 <= i <= e <= s.len(),
        forall|j: int| i <= j < e ==> is_text_char(#[trigger] s[j]),
        e == s.len() || !is_text_char(s[e]),
    ensures
        text_run(s, i) == e - i,
    decreases e - i,
{
    if i < e {
        lemma_text_run(s, i + 1, e);
    }
}

/// Where no token starts at or after `i`, the rest of the template is kept.
proof fn lemma_kept_from(s: Seq<char>, i: int, m: Map<Seq<char>, Seq<char>>)
    requires
        0 <= i <= s.len(),
        forall|j: int| i <= j < s.len() ==> #[trigger] token_at(s, j) is None,
    ensures
        substitute_from(s, i, m) == s.subrange(i, s.len() as int),
    decreases s.len() - i,
{
    if i < s.len() {
        lemma_kept_from(s, i + 1, m);
        assert(s.subrange(i, s.len() as int) =~= seq![s[i]] + s.subrange(i + 1, s.len() as int));
    } else {
        assert(s.subrange(i, s.len() as int) =~= Seq::<char>::empty());
    }
}

/// A template in which no token starts is returned unchanged.
pub proof fn law_no_token_kept(s: Seq<char>, m: Map<Seq<char>, Seq<char>>)
    requires
        forall|j: int| 0 <= j < s.len() ==> #[trigger] token_at(s, j) is None,
    ensures
        substitute(s, m) == s,
{
    lemma_kept_from(s, 0, m);
    assert(s.subrange(0, s.len() as int) =~= s);
}

/// A template without `{` or `}` is returned unchanged, whatever the mapping.
pub proof fn law_no_braces_kept(s: Seq<char>, m: Map<Seq<char>, Seq<char>>)
    requires
        forall|j: int| 0 <= j < s.len() ==> #[trigger] s[j] != '{' && s[j] != '}',
    ensures
        substitute(s, m) == s,
{
    assert forall|j: int| 0 <= j < s.len() implies #[trigger] token_at(s, j) is None by {
        assert(s[j] != '{');
    }
    law_no_token_kept(s, m);
}

/// `{k}` is one token whose body is the name `k`.
proof fn lemma_braced_name(k: Seq<char>)
    requires
        is_name(k),
    ensures
        token_at(braced(k), 0) == Some((k, (k.len() + 2) as nat)),
{
    let s = braced(k);
    let e = k.len() + 1int;
    assert(s[0] == '{');
    assert(s[e] == '}');
    lemma_space_run(s, 1, 1);
    assert forall|j: int| 1 <= j < e implies is_name_char(#[trigger] s[j]) by {
        assert(s[j] == k[j - 1]);
    }
    lemma_name_run(s, 1, e);
    lemma_space_run(s, e, e);
    assert(s.subrange(1, e) =~= k);
}

/// The value that substitution gives to the template `{k}`.
proof fn lemma_braced_result(k: Seq<char>, m: Map<Seq<char>, Seq<char>>)
    requires
        is_name(k),
    ensures
        substitute(braced(k), m) == replacement(k, m),
{
    let s = braced(k);
    lemma_braced_name(k);
    assert(k[0] != '"');
    assert(substitute_from(s, s.len() as int, m) == Seq::<char>::empty());
    assert(replacement(k, m) + Seq::<char>::empty() =~= replacement(k, m));
}

/// `{k}` becomes the value that the mapping gives for a name `k` it holds.
pub proof fn law_present_name(k: Seq<char>, m: Map<Seq<char>, Seq<char>>)
    requires
        is_name(k),
        m.contains_key(k),
    ensures
        substitute(braced(k), m) == m[k],
{
    lemma_braced_result(k, m);
}

/// `{k}` becomes `None` for a name `k` that the mapping does not hold.
pub proof fn law_absent_name(k: Seq<char>, m: Map<Seq<char>, Seq<char>>)
    requires
        is_name(k),
        !m.contains_key(k),
    ensures
        substitute(braced(k), m) == fallback(),
{
    lemma_braced_result(k, m);
}

/// `{"t"}` becomes `t` for any text `t` without a double quote, whatever the mapping.
pub proof fn law_escaped_literal(t: Seq<char>, m: Map<Seq<char>, Seq<char>>)
    requires
        forall|j: int| 0 <= j < t.len() ==> #[trigger] t[j] != '"',
    ensures
        substitute(seq!['{', '"'] + t + seq!['"', '}'], m) == t,
{
    let s = seq!['{', '"'] + t + seq!['"', '}'];
    let q = t.len() + 2int;
    assert(s[0] == '{' && s[1] == '"' && s[q] == '"' && s[q + 1] == '}');
    lemma_space_run(s, 1, 1);
    assert forall|j: int| 2 <= j < q implies is_text_char(#[trigger] s[j]) by {
        assert(s[j] == t[j - 2]);
    }
    lemma_text_run(s, 2, q);
    lemma_space_run(s, q + 1, q + 1);
    let body = s.subrange(1, q + 1);
    assert(token_at(s, 0) == Some((body, (q + 2) as nat)));
    assert(body.subrange(1, body.len() - 1) =~= t);
    assert(substitute_from(s, s.len() as int, m) == Seq::<char>::empty());
    assert(t + Seq::<char>::empty() =~= t);
}

/// Whitespace around a name changes nothing: `{ k }` gives what `{k}` gives.
pub proof fn law_spaces_ignored(k: Seq<char>, m: Map<Seq<char>, Seq<char>>)
    requires
        is_name(k),
    ensures
        substitute(seq!['{', ' '] + k + seq![' ', '}'], m) == substitute(braced(k), m),
{
    let s = seq!['{', ' '] + k + seq![' ', '}'];
    let e = k.len() + 2int;
    assert(s[0] == '{' && s[1] == ' ' && s[e] == ' ' && s[e + 1] == '}');
    assert(!is_space(s[2]) && !is_space(s[e + 1])) by {
        assert(s[2] == k[0]);
        assert(is_name_char(k[0]));
    }
    lemma_space_run(s, 2, 2);
    lemma_space_run(s, 1, 2);
    assert forall|j: int| 2 <= j < e implies is_name_char(#[trigger] s[j]) by {
        assert(s[j] == k[j - 2]);
    }
    lemma_name_run(s, 2, e);
    lemma_space_run(s, e + 1, e + 1);
    lemma_space_run(s, e, e + 1);
    assert(s.subrange(2, e) =~= k);
    assert(token_at(s, 0) == Some((k, (e + 2) as nat)));
    assert(k[0] != '"');
    assert(substitute_from(s, s.len() as int, m) == Seq::<char>::empty());
    assert(replacement(k, m) + Seq::<char>::empty() =~= replacement(k, m));
    lemma_braced_result(k, m);
}

} // verus!
