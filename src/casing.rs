//! Identifier casing: splits an identifier into words and joins them again
//! in snake_case or PascalCase.
//!
//! A word is a maximal run that is either an optional single uppercase
//! letter followed by one or more lowercase letters or digits, or one or more
//! uppercase letters. Characters that belong to no word are dropped.
use vstd::prelude::*;

verus! {

pub open spec fn is_upper(c: char) -> bool {
    'A' <= c && c <= 'Z'
}

pub open spec fn is_lower_or_digit(c: char) -> bool {
    ('a' <= c && c <= 'z') || ('0' <= c && c <= '9')
}

pub open spec fn is_word_char(c: char) -> bool {
    is_upper(c) || is_lower_or_digit(c)
}

pub open spec fn lower_char(c: char) -> char {
    if is_upper(c) {
        ((c as u32 + 32) as u8) as char
    } else {
        c
    }
}

pub open spec fn upper_char(c: char) -> char {
    if 'a' <= c && c <= 'z' {
        ((c as u32 - 32) as u8) as char
    } else {
        c
    }
}

pub open spec fn lower_seq(s: Seq<char>) -> Seq<char> {
    s.map_values(|c: char| lower_char(c))
}

/// End of the longest run of lowercase letters and digits that starts at `i`.
pub open spec fn lower_run_end(s: Seq<char>, i: int) -> int
    decreases s.len() - i,
{
    if 0 <= i < s.len() && is_lower_or_digit(s[i]) {
        lower_run_end(s, i + 1)
    } else {
        i
    }
}

/// End of the longest run of uppercase letters that starts at `i`.
pub open spec fn upper_run_end(s: Seq<char>, i: int) -> int
    decreases s.len() - i,
{
    if 0 <= i < s.len() && is_upper(s[i]) {
        upper_run_end(s, i + 1)
    } else {
        i
    }
}

/// End of the word that starts at `i`, where `s[i]` is a word character.
pub open spec fn word_end(s: Seq<char>, i: int) -> int {
    if is_upper(s[i]) && i + 1 < s.len() && is_lower_or_digit(s[i + 1]) {
        lower_run_end(s, i + 1)
    } else if is_upper(s[i]) {
        upper_run_end(s, i)
    } else {
        lower_run_end(s, i)
    }
}

pub proof fn lemma_lower_run_end(s: Seq<char>, i: int)
    requires
        0 <= i <= s.len(),
    ensures
        i <= lower_run_end(s, i) <= s.len(),
        i < s.len() && is_lower_or_digit(s[i]) ==> i < lower_run_end(s, i),
        forall|k: int| i <= k < lower_run_end(s, i) ==> is_lower_or_digit(#[trigger] s[k]),
        lower_run_end(s, i) < s.len() ==> !is_lower_or_digit(s[lower_run_end(s, i)]),
    decreases s.len() - i,
{
    if i < s.len() && is_lower_or_digit(s[i]) {
        lemma_lower_run_end(s, i + 1);
    }
}

pub proof fn lemma_upper_run_end(s: Seq<char>, i: int)
    requires
        0 <= i <= s.len(),
    ensures
        i <= upper_run_end(s, i) <= s.len(),
        i < s.len() && is_upper(s[i]) ==> i < upper_run_end(s, i),
        forall|k: int| i <= k < upper_run_end(s, i) ==> is_upper(#[trigger] s[k]),
        upper_run_end(s, i) < s.len() ==> !is_upper(s[upper_run_end(s, i)]),
    decreases s.len() - i,
{
    if i < s.len() && is_upper(s[i]) {
        lemma_upper_run_end(s, i + 1);
    }
}

pub proof fn lemma_word_end(s: Seq<char>, i: int)
    requires
        0 <= i < s.len(),
        is_word_char(s[i]),
    ensures
        i < word_end(s, i) <= s.len(),
{
    lemma_lower_run_end(s, i);
    lemma_upper_run_end(s, i);
    if i + 1 < s.len() {
        lemma_lower_run_end(s, i + 1);
    }
}

/// The words of `s` from position `i` on, in order.
pub open spec fn words_from(s: Seq<char>, i: int) -> Seq<Seq<char>>
    decreases s.len() - i,
    via words_from_decreases
{
    if i < 0 || i >= s.len() {
        Seq::empty()
    } else if is_word_char(s[i]) {
        seq![s.subrange(i, word_end(s, i))] + words_from(s, word_end(s, i))
    } else {
        words_from(s, i + 1)
    }
}

#[via_fn]
proof fn words_from_decreases(s: Seq<char>, i: int) {
    if 0 <= i < s.len() && is_word_char(s[i]) {
        lemma_word_end(s, i);
    }
}

/// The words of `s`, in order.
pub open spec fn words(s: Seq<char>) -> Seq<Seq<char>> {
    words_from(s, 0)
}

/// The words joined with `_` between them.
pub open spec fn join_underscore(ws: Seq<Seq<char>>) -> Seq<char>
    decreases ws.len(),
{
    if ws.len() == 0 {
        Seq::empty()
    } else if ws.len() == 1 {
        ws[0]
    } else {
        join_underscore(ws.drop_last()) + seq!['_'] + ws.last()
    }
}

/// A word with its first character in uppercase and the rest in lowercase.
pub open spec fn capitalized(w: Seq<char>) -> Seq<char> {
    if w.len() == 0 {
        Seq::empty()
    } else {
        seq![upper_char(w[0])] + lower_seq(w.drop_first())
    }
}

/// The words, each capitalized, with nothing between them.
pub open spec fn join_capitalized(ws: Seq<Seq<char>>) -> Seq<char>
    decreases ws.len(),
{
    if ws.len() == 0 {
        Seq::empty()
    } else {
        join_capitalized(ws.drop_last()) + capitalized(ws.last())
    }
}

pub open spec fn snake_of(s: Seq<char>) -> Seq<char> {
    lower_seq(join_underscore(words(s)))
}

pub open spec fn pascal_of(s: Seq<char>) -> Seq<char> {
    join_capitalized(words(s))
}

/// Relies on String::push: appends one character.
#[verifier::external_body]
fn push_char(s: &mut String, c: char)
    ensures
        final(s)@ == old(s)@.push(c),
{
    s.push(c)
}

fn is_upper_exec(c: char) -> (r: bool)
    ensures
        r == is_upper(c),
{
    'A' <= c && c <= 'Z'
}

fn is_lower_or_digit_exec(c: char) -> (r: bool)
    ensures
        r == is_lower_or_digit(c),
{
    ('a' <= c && c <= 'z') || ('0' <= c && c <= '9')
}

fn to_lower(c: char) -> (r: char)
    ensures
        r == lower_char(c),
{
    if 'A' <= c && c <= 'Z' {
        ((c as u8) + 32) as char
    } else {
        c
    }
}

fn to_upper(c: char) -> (r: char)
    ensures
        r == upper_char(c),
{
    if 'a' <= c && c <= 'z' {
        ((c as u8) - 32) as char
    } else {
        c
    }
}

fn lower_run_end_exec(s: &str, n: usize, i: usize) -> (e: usize)
    requires
        n == s@.len(),
        i <= n,
    ensures
        e == lower_run_end(s@, i as int),
{
    let mut j = i;
    while j < n && is_lower_or_digit_exec(s.get_char(j))
        invariant
            i <= j <= n,
            n == s@.len(),
            lower_run_end(s@, j as int) == lower_run_end(s@, i as int),
        decreases n - j,
    {
        j = j + 1;
    }
    j
}

fn upper_run_end_exec(s: &str, n: usize, i: usize) -> (e: usize)
    requires
        n == s@.len(),
        i <= n,
    ensures
        e == upper_run_end(s@, i as int),
{
    let mut j = i;
    while j < n && is_upper_exec(s.get_char(j))
        invariant
            i <= j <= n,
            n == s@.len(),
            upper_run_end(s@, j as int) == upper_run_end(s@, i as int),
        decreases n - j,
    {
        j = j + 1;
    }
    j
}

fn word_end_exec(s: &str, n: usize, i: usize) -> (e: usize)
    requires
        n == s@.len(),
        i < n,
        is_word_char(s@[i as int]),
    ensures
        e == word_end(s@, i as int),
        i < e <= n,
{
    proof {
        lemma_word_end(s@, i as int);
    }
    let c = s.get_char(i);
    if is_upper_exec(c) && i + 1 < n && is_lower_or_digit_exec(s.get_char(i + 1)) {
        lower_run_end_exec(s, n, i + 1)
    } else if is_upper_exec(c) {
        upper_run_end_exec(s, n, i)
    } else {
        lower_run_end_exec(s, n, i)
    }
}

proof fn lemma_words_step(s: Seq<char>, i: int)
    requires
        0 <= i < s.len(),
    ensures
        is_word_char(s[i]) ==> words_from(s, i) == seq![s.subrange(i, word_end(s, i))]
            + words_from(s, word_end(s, i)),
        !is_word_char(s[i]) ==> words_from(s, i) == words_from(s, i + 1),
{
}

/// Converts an identifier in camelCase, PascalCase or SCREAMING_SNAKE_CASE
/// to snake_case.
pub fn convert_casing_to_snake(ident: &str) -> (r: String)
    ensures
        r@ == snake_of(ident@),
{
    let n = ident.unicode_len();
    let ghost s = ident@;
    let mut out = String::new();
    let ghost mut done: Seq<Seq<char>> = Seq::empty();
    let mut first = true;
    let mut i: usize = 0;
    while i < n
        invariant
            i <= n,
            n == s.len(),
            s == ident@,
            first == (done.len() == 0),
            done + words_from(s, i as int) == words(s),
            out@ == lower_seq(join_underscore(done)),
        decreases n - i,
    {
        proof {
            lemma_words_step(s, i as int);
        }
        let c = ident.get_char(i);
        if is_upper_exec(c) || is_lower_or_digit_exec(c) {
            let e = word_end_exec(ident, n, i);
            let ghost w = s.subrange(i as int, e as int);
            let ghost out0 = out@;
            let ghost sep: Seq<char> = if done.len() == 0 { Seq::empty() } else { seq!['_'] };
            if !first {
                push_char(&mut out, '_');
            }
            first = false;
            assert(out@ == out0 + lower_seq(sep));
            let mut k = i;
            while k < e
                invariant
                    i <= k <= e,
                    e <= n,
                    n == s.len(),
                    s == ident@,
                    w == s.subrange(i as int, e as int),
                    out@ == out0 + lower_seq(sep) + lower_seq(s.subrange(i as int, k as int)),
                decreases e - k,
            {
                let d = ident.get_char(k);
                push_char(&mut out, to_lower(d));
                assert(lower_seq(s.subrange(i as int, k + 1)) =~= lower_seq(
                    s.subrange(i as int, k as int),
                ).push(lower_char(d)));
                k = k + 1;
            }
            proof {
                let nd = done.push(w);
                assert(nd.drop_last() =~= done);
                if done.len() == 0 {
                    assert(join_underscore(nd) == w);
                } else {
                    assert(join_underscore(nd) == join_underscore(done) + seq!['_'] + w);
                }
                assert(lower_seq(join_underscore(nd)) =~= out0 + lower_seq(sep) + lower_seq(w));
                assert(nd + words_from(s, e as int) =~= done + words_from(s, i as int));
                done = nd;
            }
            i = e;
        } else {
            i = i + 1;
        }
    }
    assert(done =~= words(s));
    out
}

/// Converts an identifier in camelCase, snake_case or SCREAMING_SNAKE_CASE
/// to PascalCase.
pub fn convert_casing_to_pascal(ident: &str) -> (r: String)
    ensures
        r@ == pascal_of(ident@),
{
    let n = ident.unicode_len();
    let ghost s = ident@;
    let mut out = String::new();
    let ghost mut done: Seq<Seq<char>> = Seq::empty();
    let mut i: usize = 0;
    while i < n
        invariant
            i <= n,
            n == s.len(),
            s == ident@,
            done + words_from(s, i as int) == words(s),
            out@ == join_capitalized(done),
        decreases n - i,
    {
        proof {
            lemma_words_step(s, i as int);
        }
        let c = ident.get_char(i);
        if is_upper_exec(c) || is_lower_or_digit_exec(c) {
            let e = word_end_exec(ident, n, i);
            let ghost w = s.subrange(i as int, e as int);
            let ghost out0 = out@;
            push_char(&mut out, to_upper(c));
            let mut k = i + 1;
            while k < e
                invariant
                    i < k <= e,
                    e <= n,
                    n == s.len(),
                    s == ident@,
                    out@ == out0 + seq![upper_char(s[i as int])] + lower_seq(
                        s.subrange(i + 1, k as int),
                    ),
                decreases e - k,
            {
                let d = ident.get_char(k);
                push_char(&mut out, to_lower(d));
                assert(lower_seq(s.subrange(i + 1, k + 1)) =~= lower_seq(
                    s.subrange(i + 1, k as int),
                ).push(lower_char(d)));
                k = k + 1;
            }
            proof {
                let nd = done.push(w);
                assert(nd.drop_last() =~= done);
                assert(w.drop_first() =~= s.subrange(i + 1, e as int));
                assert(out@ =~= join_capitalized(nd));
                assert(nd + words_from(s, e as int) =~= done + words_from(s, i as int));
                done = nd;
            }
            i = e;
        } else {
            i = i + 1;
        }
    }
    assert(done =~= words(s));
    out
}

pub open spec fn is_lower_letter(c: char) -> bool {
    'a' <= c && c <= 'z'
}

/// No two uppercase letters stand next to each other in `s`.
pub open spec fn no_upper_pair(s: Seq<char>) -> bool {
    forall|k: int| 0 <= k < s.len() - 1 ==> !(is_upper(#[trigger] s[k]) && is_upper(s[k + 1]))
}

spec fn is_word(w: Seq<char>) -> bool {
    w.len() > 0 && forall|k: int| 0 <= k < w.len() ==> is_word_char(#[trigger] w[k])
}

proof fn lemma_words_shape(s: Seq<char>, i: int)
    requires
        0 <= i <= s.len(),
    ensures
        forall|j: int| 0 <= j < words_from(s, i).len() ==> is_word(#[trigger] words_from(s, i)[j]),
    decreases s.len() - i,
{
    if i < s.len() {
        if is_word_char(s[i]) {
            let e = word_end(s, i);
            lemma_word_end(s, i);
            lemma_lower_run_end(s, i);
            lemma_upper_run_end(s, i);
            if i + 1 < s.len() {
                lemma_lower_run_end(s, i + 1);
            }
            lemma_words_shape(s, e);
            let w = s.subrange(i, e);
            assert forall|k: int| 0 <= k < w.len() implies is_word_char(#[trigger] w[k]) by {
                assert(w[k] == s[i + k]);
                if k > 0 && is_upper(s[i]) && i + 1 < s.len() && is_lower_or_digit(s[i + 1]) {
                    assert(is_lower_or_digit(s[i + k]));
                }
            }
            lemma_words_step(s, i);
            let ws = words_from(s, i);
            assert(ws == seq![w] + words_from(s, e));
            assert forall|j: int| 0 <= j < ws.len() implies is_word(#[trigger] ws[j]) by {
                if j == 0 {
                    assert(ws[j] == w);
                } else {
                    assert(ws[j] == words_from(s, e)[j - 1]);
                }
            }
        } else {
            lemma_words_step(s, i);
            lemma_words_shape(s, i + 1);
        }
    }
}

proof fn lemma_join_capitalized_prepend(w: Seq<char>, rest: Seq<Seq<char>>)
    ensures
        join_capitalized(seq![w] + rest) == capitalized(w) + join_capitalized(rest),
    decreases rest.len(),
{
    let all = seq![w] + rest;
    if rest.len() == 0 {
        assert(all.drop_last() =~= Seq::<Seq<char>>::empty());
        assert(all.last() == w);
        assert(join_capitalized(all.drop_last()) =~= Seq::<char>::empty());
        assert(join_capitalized(rest) =~= Seq::<char>::empty());
        assert(join_capitalized(all) == join_capitalized(all.drop_last()) + capitalized(w));
        assert(join_capitalized(all) =~= capitalized(w) + join_capitalized(rest));
    } else {
        assert(all.drop_last() =~= seq![w] + rest.drop_last());
        assert(all.last() == rest.last());
        lemma_join_capitalized_prepend(w, rest.drop_last());
        assert(join_capitalized(all) =~= capitalized(w) + join_capitalized(rest));
    }
}

proof fn lemma_join_capitalized_shape(ws: Seq<Seq<char>>)
    requires
        forall|j: int| 0 <= j < ws.len() ==> is_word(#[trigger] ws[j]),
    ensures
        forall|k: int|
            0 <= k < join_capitalized(ws).len() ==> is_word_char(
                #[trigger] join_capitalized(ws)[k],
            ),
        ws.len() > 0 ==> join_capitalized(ws).len() > 0 && !is_lower_letter(
            join_capitalized(ws)[0],
        ),
    decreases ws.len(),
{
    if ws.len() > 0 {
        let front = ws.drop_last();
        let w = ws.last();
        lemma_join_capitalized_shape(front);
        let c = capitalized(w);
        assert(is_word(w));
        assert forall|k: int| 0 <= k < c.len() implies is_word_char(#[trigger] c[k]) by {
            if k > 0 {
                assert(c[k] == lower_char(w[k]));
            }
        }
        let j = join_capitalized(ws);
        assert(j == join_capitalized(front) + c);
        assert forall|k: int| 0 <= k < j.len() implies is_word_char(#[trigger] j[k]) by {
            if k >= join_capitalized(front).len() {
                assert(j[k] == c[k - join_capitalized(front).len()]);
            }
        }
    }
}

/// A text made of word characters that does not start with a lowercase letter
/// and has no two uppercase letters in a row is already in PascalCase.
proof fn lemma_pascal_fixed(q: Seq<char>, i: int)
    requires
        0 <= i <= q.len(),
        forall|k: int| 0 <= k < q.len() ==> is_word_char(#[trigger] q[k]),
        no_upper_pair(q),
        i < q.len() ==> !is_lower_letter(q[i]),
    ensures
        join_capitalized(words_from(q, i)) == q.subrange(i, q.len() as int),
    decreases q.len() - i,
{
    if i == q.len() {
        assert(q.subrange(i, q.len() as int) =~= Seq::<char>::empty());
    } else {
        let e = word_end(q, i);
        lemma_word_end(q, i);
        lemma_lower_run_end(q, i);
        lemma_upper_run_end(q, i);
        if i + 1 < q.len() {
            lemma_lower_run_end(q, i + 1);
            assert(!(is_upper(q[i]) && is_upper(q[i + 1])));
        }
        let w = q.subrange(i, e);
        if is_upper(q[i]) && i + 1 < q.len() {
            assert(e == lower_run_end(q, i + 1));
        } else if is_upper(q[i]) {
            assert(upper_run_end(q, i + 1) == i + 1);
            assert(e == i + 1);
        } else {
            assert(e == lower_run_end(q, i));
        }
        assert forall|k: int| i < k < e implies is_lower_or_digit(#[trigger] q[k]) by {}
        if e < q.len() {
            assert(!is_lower_or_digit(q[e]));
        }
        lemma_pascal_fixed(q, e);
        assert(capitalized(w) =~= w);
        lemma_join_capitalized_prepend(w, words_from(q, e));
        assert(q.subrange(i, q.len() as int) =~= w + q.subrange(e, q.len() as int));
    }
}

/// Converting to PascalCase a second time gives the same text again, as long
/// as the first result has no two uppercase letters next to each other.
/// (One-letter words break this: `"a_b"` gives `"AB"`, which is one word and
/// gives `"Ab"`.)
pub proof fn law_pascal_stable(s: Seq<char>)
    requires
        no_upper_pair(pascal_of(s)),
    ensures
        pascal_of(pascal_of(s)) == pascal_of(s),
{
    let p = pascal_of(s);
    lemma_words_shape(s, 0);
    lemma_join_capitalized_shape(words(s));
    lemma_pascal_fixed(p, 0);
    assert(p.subrange(0, p.len() as int) =~= p);
}

} // verus!
