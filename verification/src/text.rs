//! Character and token utilities: the separator set, case folding for label
//! names, trimming of input lines, and the whitespace tokenizer that the
//! loader runs over program text.

use vstd::prelude::*;

verus! {

/// The characters treated as token separators (ASCII whitespace).
pub open spec fn is_ws(c: char) -> bool {
    c == ' ' || c == '\t' || c == '\n' || c == '\r' || c == '\u{b}' || c == '\u{c}'
}

/// Runtime test matching [`is_ws`].
pub fn is_ws_char(c: char) -> (b: bool)
    ensures
        b == is_ws(c),
{
    c == ' ' || c == '\t' || c == '\n' || c == '\r' || c == '\u{b}' || c == '\u{c}'
}

/// ASCII case folding of one character: `A`..`Z` map to `a`..`z`,
/// everything else is unchanged.
pub open spec fn lower_char(c: char) -> char {
    if 'A' <= c && c <= 'Z' {
        ((c as int) + 32) as char
    } else {
        c
    }
}

/// ASCII case folding of a whole sequence.
pub open spec fn lower(s: Seq<char>) -> Seq<char> {
    s.map_values(|c: char| lower_char(c))
}

/// Runtime case folding of one character, matching [`lower_char`].
pub fn char_to_lower(c: char) -> (r: char)
    ensures
        r == lower_char(c),
{
    let u = c as u32;
    if 65 <= u && u <= 90 {
        ((u + 32) as u8) as char
    } else {
        c
    }
}

/// Case folding is idempotent on single characters.
pub proof fn lemma_lower_char_idempotent(c: char)
    ensures
        lower_char(lower_char(c)) == lower_char(c),
{
}

/// Case folding is idempotent on sequences.
pub proof fn lemma_lower_idempotent(s: Seq<char>)
    ensures
        lower(lower(s)) == lower(s),
{
    assert forall|i: int| 0 <= i < s.len() implies lower(lower(s))[i] == lower(s)[i] by {
        lemma_lower_char_idempotent(s[i]);
    }
    assert(lower(lower(s)) =~= lower(s));
}

/// Case-insensitive string comparison: true exactly when the two strings
/// fold to the same sequence.
pub fn eq_ignore_case(a: &str, b: &str) -> (r: bool)
    ensures
        r == (lower(a@) == lower(b@)),
{
    let na = a.unicode_len();
    let nb = b.unicode_len();
    if na != nb {
        proof {
            assert(lower(a@).len() != lower(b@).len());
        }
        return false;
    }
    let mut i: usize = 0;
    while i < na
        invariant
            na == a@.len(),
            na == b@.len(),
            i <= na,
            forall|k: int| 0 <= k < i ==> lower_char(a@[k]) == lower_char(b@[k]),
        decreases na - i,
    {
        let ca = char_to_lower(a.get_char(i));
        let cb = char_to_lower(b.get_char(i));
        if ca != cb {
            proof {
                assert(lower(a@)[i as int] != lower(b@)[i as int]);
            }
            return false;
        }
        i += 1;
    }
    proof {
        assert forall|k: int| 0 <= k < a@.len() implies lower(a@)[k] == lower(b@)[k] by {}
        assert(lower(a@) =~= lower(b@));
    }
    true
}

/// Index of the first non-separator character, or the length if the whole
/// sequence is separators.
pub open spec fn first_non_ws(s: Seq<char>) -> int
    decreases s.len(),
{
    if s.len() == 0 {
        0
    } else if !is_ws(s[0]) {
        0
    } else {
        1 + first_non_ws(s.drop_first())
    }
}

/// One past the last non-separator character, or zero if the whole sequence
/// is separators.
pub open spec fn trimmed_end(s: Seq<char>) -> int
    decreases s.len(),
{
    if s.len() == 0 {
        0
    } else if is_ws(s.last()) {
        trimmed_end(s.drop_last())
    } else {
        s.len() as int
    }
}

/// The sequence with leading and trailing separators removed.
pub open spec fn trim_spec(s: Seq<char>) -> Seq<char> {
    if trimmed_end(s) <= first_non_ws(s) {
        Seq::empty()
    } else {
        s.subrange(first_non_ws(s), trimmed_end(s))
    }
}

/// `first_non_ws` is the unique boundary with separators before it and a
/// non-separator (or the end) at it.
pub proof fn lemma_first_non_ws_is(s: Seq<char>, m: int)
    requires
        0 <= m <= s.len(),
        forall|k: int| 0 <= k < m ==> is_ws(s[k]),
        m < s.len() ==> !is_ws(s[m]),
    ensures
        first_non_ws(s) == m,
    decreases s.len(),
{
    if s.len() == 0 {
    } else if m == 0 {
    } else {
        assert(is_ws(s[0]));
        lemma_first_non_ws_is(s.drop_first(), m - 1);
    }
}

/// `trimmed_end` is the unique boundary with separators after it and a
/// non-separator (or the start) just before it.
pub proof fn lemma_trimmed_end_is(s: Seq<char>, m: int)
    requires
        0 <= m <= s.len(),
        forall|k: int| m <= k < s.len() ==> is_ws(s[k]),
        m > 0 ==> !is_ws(s[m - 1]),
    ensures
        trimmed_end(s) == m,
    decreases s.len(),
{
    if s.len() == 0 {
    } else if m == s.len() {
    } else {
        assert(is_ws(s.last()));
        lemma_trimmed_end_is(s.drop_last(), m);
    }
}

/// Removes leading and trailing separators from a string slice.
pub fn trim(s: &str) -> (r: &str)
    ensures
        r@ == trim_spec(s@),
{
    let n = s.unicode_len();
    let mut i: usize = 0;
    while i < n && is_ws_char(s.get_char(i))
        invariant
            n == s@.len(),
            i <= n,
            forall|k: int| 0 <= k < i ==> is_ws(s@[k]),
        decreases n - i,
    {
        i += 1;
    }
    proof {
        lemma_first_non_ws_is(s@, i as int);
    }
    if i == n {
        proof {
            lemma_trimmed_end_is(s@, 0);
            assert(s@.subrange(0, 0) =~= Seq::<char>::empty());
        }
        return s.substring_char(0, 0);
    }
    let mut j: usize = n;
    while j > i && is_ws_char(s.get_char(j - 1))
        invariant
            n == s@.len(),
            i <= j <= n,
            forall|k: int| j <= k < n ==> is_ws(s@[k]),
        decreases j,
    {
        j -= 1;
    }
    proof {
        if j == i {
            assert(is_ws(s@[i as int]));
            assert(false);
        }
        lemma_trimmed_end_is(s@, j as int);
    }
    s.substring_char(i, j)
}

/// Length of the leading token: the longest non-separator prefix.
pub open spec fn token_len(s: Seq<char>) -> int
    decreases s.len(),
{
    if s.len() == 0 {
        0
    } else if is_ws(s[0]) {
        0
    } else {
        1 + token_len(s.drop_first())
    }
}

/// `token_len` is the unique boundary with non-separators before it and a
/// separator (or the end) at it.
pub proof fn lemma_token_len_is(s: Seq<char>, m: int)
    requires
        0 <= m <= s.len(),
        forall|k: int| 0 <= k < m ==> !is_ws(s[k]),
        m < s.len() ==> is_ws(s[m]),
    ensures
        token_len(s) == m,
    decreases s.len(),
{
    if s.len() == 0 {
    } else if m == 0 {
    } else {
        assert(!is_ws(s[0]));
        lemma_token_len_is(s.drop_first(), m - 1);
    }
}

/// The whitespace split of a sequence: its maximal runs of non-separator
/// characters, in order.
pub open spec fn tokenize(s: Seq<char>) -> Seq<Seq<char>>
    decreases s.len(),
    via tokenize_dec
{
    if s.len() == 0 {
        Seq::empty()
    } else if is_ws(s[0]) {
        tokenize(s.drop_first())
    } else {
        seq![s.take(token_len(s))] + tokenize(s.skip(token_len(s)))
    }
}

#[via_fn]
proof fn tokenize_dec(s: Seq<char>) {
    if s.len() > 0 && !is_ws(s[0]) {
        lemma_token_len_is_positive(s);
    }
}

/// A sequence that starts with a non-separator has a nonempty leading token.
pub proof fn lemma_token_len_is_positive(s: Seq<char>)
    requires
        s.len() > 0,
        !is_ws(s[0]),
    ensures
        1 <= token_len(s) <= s.len(),
    decreases s.len(),
{
    lemma_token_len_bounds(s.drop_first());
}

/// The leading token never runs past the end of the sequence.
pub proof fn lemma_token_len_bounds(s: Seq<char>)
    ensures
        0 <= token_len(s) <= s.len(),
    decreases s.len(),
{
    if s.len() > 0 && !is_ws(s[0]) {
        lemma_token_len_bounds(s.drop_first());
    }
}

/// The views of a sequence of owned strings.
pub open spec fn str_views(v: Seq<String>) -> Seq<Seq<char>> {
    v.map_values(|x: String| x@)
}

/// Splits a string on runs of separators, matching [`tokenize`].
pub fn tokenize_str(s: &str) -> (toks: Vec<String>)
    ensures
        str_views(toks@) == tokenize(s@),
{
    let n = s.unicode_len();
    let mut toks: Vec<String> = Vec::new();
    let mut i: usize = 0;
    proof {
        assert(str_views(toks@) =~= Seq::<Seq<char>>::empty());
        assert(s@.skip(0) =~= s@);
    }
    while i < n
        invariant
            n == s@.len(),
            i <= n,
            str_views(toks@) + tokenize(s@.skip(i as int)) == tokenize(s@),
        decreases n - i,
    {
        let c = s.get_char(i);
        if is_ws_char(c) {
            proof {
                assert(s@.skip(i as int).drop_first() =~= s@.skip(i as int + 1));
            }
            i += 1;
        } else {
            let mut j: usize = i;
            while j < n && !is_ws_char(s.get_char(j))
                invariant
                    n == s@.len(),
                    i <= j <= n,
                    forall|k: int| i <= k < j ==> !is_ws(s@[k]),
                decreases n - j,
            {
                j += 1;
            }
            proof {
                if j == i {
                    assert(!is_ws(s@[i as int]));
                    assert(false);
                }
            }
            let tok = s.substring_char(i, j);
            let ghost prior = toks@;
            toks.push(tok.to_owned());
            proof {
                let si = s@.skip(i as int);
                assert forall|k: int| 0 <= k < j - i implies !is_ws(si[k]) by {
                    assert(si[k] == s@[i + k]);
                }
                lemma_token_len_is(si, j - i);
                assert(si.take(j - i) =~= s@.subrange(i as int, j as int));
                assert(si.skip(j - i) =~= s@.skip(j as int));
                assert(str_views(toks@) =~= str_views(prior).push(tok@));
                assert(tokenize(s@.skip(i as int)) == seq![tok@] + tokenize(s@.skip(j as int)));
                assert(str_views(toks@) + tokenize(s@.skip(j as int)) =~= str_views(prior) + (
                seq![tok@] + tokenize(s@.skip(j as int))));
            }
            i = j;
        }
    }
    proof {
        assert(s@.skip(n as int) =~= Seq::<char>::empty());
        assert(tokenize(Seq::<char>::empty()) =~= Seq::<Seq<char>>::empty());
        assert(str_views(toks@) =~= str_views(toks@) + Seq::<Seq<char>>::empty());
    }
    toks
}

} // verus!
