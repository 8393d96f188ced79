//! Character and decimal-number helpers shared by the naming and save-file code.
use vstd::prelude::*;
use vstd::string::*;

verus! {

/// The ASCII digit character for a value below ten.
pub open spec fn digit_char(d: nat) -> char
    recommends
        d < 10,
{
    (48 + d) as char
}

/// The decimal notation of a natural number, most significant digit first,
/// without sign or leading zeros.
pub open spec fn decimal(n: nat) -> Seq<char>
    decreases n,
{
    if n < 10 {
        seq![digit_char(n)]
    } else {
        decimal(n / 10).push(digit_char(n % 10))
    }
}

/// Appends one character to a `String` (std's `String::push`).
#[verifier::external_body]
pub(crate) fn push_char(s: &mut String, c: char)
    ensures
        final(s)@ == old(s)@.push(c),
{
    s.push(c);
}

fn digit(d: usize) -> (c: char)
    requires
        d < 10,
    ensures
        c == digit_char(d as nat),
{
    let b: u8 = 48u8 + (d as u8);
    b as char
}

/// Appends the decimal notation of `n` to `out`.
pub fn push_decimal(out: &mut String, n: usize)
    ensures
        final(out)@ == old(out)@ + decimal(n as nat),
    decreases n,
{
    if n >= 10 {
        push_decimal(out, n / 10);
    }
    push_char(out, digit(n % 10));
}

/// The decimal notation of `n` as a new string.
pub fn decimal_string(n: usize) -> (s: String)
    ensures
        s@ == decimal(n as nat),
{
    let mut s = String::new();
    push_decimal(&mut s, n);
    s
}

} // verus!

verus! {

/// Unicode `White_Space`: the characters that separate words of a text.
pub open spec fn is_white_space(c: char) -> bool {
    let u = c as u32;
    ||| 0x9 <= u <= 0xd
    ||| u == 0x20
    ||| u == 0x85
    ||| u == 0xa0
    ||| u == 0x1680
    ||| 0x2000 <= u <= 0x200a
    ||| u == 0x2028
    ||| u == 0x2029
    ||| u == 0x202f
    ||| u == 0x205f
    ||| u == 0x3000
}

/// Whether a character has the Unicode `White_Space` property.
pub fn char_is_whitespace(c: char) -> (b: bool)
    ensures
        b == is_white_space(c),
{
    let u = c as u32;
    (0x9 <= u && u <= 0xd) || u == 0x20 || u == 0x85 || u == 0xa0 || u == 0x1680 || (0x2000
        <= u && u <= 0x200a) || u == 0x2028 || u == 0x2029 || u == 0x202f || u == 0x205f || u
        == 0x3000
}

/// A word: a non-empty run of characters none of which is white space.
pub open spec fn is_word(w: Seq<char>) -> bool {
    w.len() > 0 && forall|i: int| 0 <= i < w.len() ==> !is_white_space(#[trigger] w[i])
}

/// The length of the run of non-white-space characters at the start of `s`.
pub open spec fn word_len(s: Seq<char>) -> nat
    decreases s.len(),
{
    if s.len() == 0 || is_white_space(s[0]) {
        0
    } else {
        1 + word_len(s.drop_first())
    }
}

pub proof fn lemma_word_len_bound(s: Seq<char>)
    ensures
        word_len(s) <= s.len(),
        s.len() > 0 && !is_white_space(s[0]) ==> word_len(s) >= 1,
    decreases s.len(),
{
    if s.len() > 0 && !is_white_space(s[0]) {
        lemma_word_len_bound(s.drop_first());
    }
}

/// The words of a text, in order: the maximal runs of characters that are
/// not white space (what std's `str::split_whitespace` yields).
pub open spec fn tokens(s: Seq<char>) -> Seq<Seq<char>>
    decreases s.len(),
{
    if s.len() == 0 {
        seq![]
    } else if is_white_space(s[0]) {
        tokens(s.drop_first())
    } else {
        proof {
            lemma_word_len_bound(s);
        }
        seq![s.take(word_len(s) as int)] + tokens(s.skip(word_len(s) as int))
    }
}

proof fn lemma_word_len_of_word(w: Seq<char>, t: Seq<char>)
    requires
        forall|i: int| 0 <= i < w.len() ==> !is_white_space(#[trigger] w[i]),
        t.len() == 0 || is_white_space(t[0]),
    ensures
        word_len(w + t) == w.len(),
    decreases w.len(),
{
    if w.len() > 0 {
        assert((w + t).drop_first() =~= w.drop_first() + t);
        lemma_word_len_of_word(w.drop_first(), t);
    } else {
        assert(w + t =~= t);
    }
}

/// A word followed by white space (or by nothing) is the first token.
pub proof fn lemma_tokens_word_then(w: Seq<char>, t: Seq<char>)
    requires
        is_word(w),
        t.len() == 0 || is_white_space(t[0]),
    ensures
        tokens(w + t) == seq![w] + tokens(t),
{
    lemma_word_len_of_word(w, t);
    assert((w + t)[0] == w[0]);
    assert((w + t).take(w.len() as int) =~= w);
    assert((w + t).skip(w.len() as int) =~= t);
}

/// Leading white space does not change the tokens.
pub proof fn lemma_tokens_skip_space(c: char, t: Seq<char>)
    requires
        is_white_space(c),
    ensures
        tokens(seq![c] + t) == tokens(t),
{
    assert((seq![c] + t).drop_first() =~= t);
}

/// Splits a text into its words, in order.
pub fn split_whitespace(s: &str) -> (words: Vec<String>)
    ensures
        words@.map_values(|w: String| w@) == tokens(s@),
{
    let mut words: Vec<String> = Vec::new();
    let mut word = String::new();
    let mut in_word = false;
    let ghost mut rest: Seq<char> = s@;
    for c in it: s.chars()
        invariant
            it.seq() == s@,
            rest == s@.skip(it.index()),
            in_word == (word@.len() > 0),
            forall|i: int| 0 <= i < word@.len() ==> !is_white_space(#[trigger] word@[i]),
            words@.map_values(|w: String| w@) + tokens(word@ + rest) == tokens(s@),
    {
        let ghost old_rest = rest;
        proof {
            rest = s@.skip(it.index() + 1);
            assert(old_rest =~= seq![c] + rest);
        }
        if char_is_whitespace(c) {
            if in_word {
                proof {
                    lemma_tokens_word_then(word@, old_rest);
                    lemma_tokens_skip_space(c, rest);
                    assert(Seq::<char>::empty() + rest =~= rest);
                }
                let mut finished = String::new();
                std::mem::swap(&mut finished, &mut word);
                words.push(finished);
                in_word = false;
                proof {
                    assert(word@ + rest =~= rest);
                }
            } else {
                proof {
                    assert(word@ + old_rest =~= old_rest);
                    assert(word@ + rest =~= rest);
                    lemma_tokens_skip_space(c, rest);
                }
            }
        } else {
            let ghost before = word@;
            push_char(&mut word, c);
            in_word = true;
            proof {
                assert(word@ + rest =~= before + old_rest);
            }
        }
    }
    proof {
        assert(rest =~= Seq::<char>::empty());
        if word@.len() > 0 {
            lemma_tokens_word_then(word@, rest);
            assert(word@ + rest =~= word@);
        } else {
            assert(word@ + rest =~= Seq::<char>::empty());
        }
    }
    if in_word {
        words.push(word);
    }
    words
}

} // verus!

verus! {

/// An ASCII decimal digit.
pub open spec fn is_digit(c: char) -> bool {
    48 <= (c as u32) <= 57
}

/// A non-empty run of ASCII decimal digits.
pub open spec fn is_digits(d: Seq<char>) -> bool {
    d.len() > 0 && forall|i: int| 0 <= i < d.len() ==> is_digit(#[trigger] d[i])
}

/// The value of a run of decimal digits, most significant first.
pub open spec fn digits_value(d: Seq<char>) -> nat
    decreases d.len(),
{
    if d.len() == 0 {
        0
    } else {
        10 * digits_value(d.drop_last()) + ((d.last() as u32) - 48) as nat
    }
}

/// The digits of an unsigned integer literal: an optional leading `+` is
/// not part of them.
pub open spec fn unsigned_digits(s: Seq<char>) -> Seq<char> {
    if s.len() > 0 && s[0] == '+' {
        s.drop_first()
    } else {
        s
    }
}

/// What std's `usize` parser accepts: an optional `+` followed by one or
/// more decimal digits whose value fits in `usize`; `None` for any other text.
pub open spec fn usize_value(s: Seq<char>) -> Option<nat> {
    let d = unsigned_digits(s);
    if is_digits(d) && digits_value(d) <= usize::MAX {
        Some(digits_value(d))
    } else {
        None
    }
}

/// The text of the error that std's `usize` parser reports for `token`.
pub uninterp spec fn int_parse_error_text(token: Seq<char>) -> Seq<char>;

/// Parses a `usize` with std's `str::parse`; an error becomes its message.
/// The contract claims what std documents for `from_str_radix` in base 10:
/// success exactly on an optional `+` followed by digits whose value fits,
/// with that value; the error text is named, not stated.
#[verifier::external_body]
pub(crate) fn parse_usize(token: &str) -> (r: Result<usize, String>)
    ensures
        match usize_value(token@) {
            Some(v) => r matches Ok(x) && x == v,
            None => r matches Err(e) && e@ == int_parse_error_text(token@),
        },
{
    match token.parse::<usize>() {
        Ok(v) => Ok(v),
        Err(e) => Err(e.to_string()),
    }
}

proof fn lemma_digit_char(d: nat)
    requires
        d < 10,
    ensures
        is_digit(digit_char(d)),
        (digit_char(d) as u32) - 48 == d,
        digit_char(d) != '+',
        !is_white_space(digit_char(d)),
{
}

/// The decimal notation of `n` is a run of digits worth `n`, and a word.
pub proof fn lemma_decimal_digits(n: nat)
    ensures
        is_digits(decimal(n)),
        digits_value(decimal(n)) == n,
        decimal(n)[0] != '+',
        is_word(decimal(n)),
    decreases n,
{
    if n < 10 {
        lemma_digit_char(n);
        assert(decimal(n).drop_last() =~= Seq::<char>::empty());
        assert(digits_value(Seq::<char>::empty()) == 0);
    } else {
        lemma_decimal_digits(n / 10);
        lemma_digit_char(n % 10);
        let d = decimal(n);
        assert(d.drop_last() =~= decimal(n / 10));
        assert(d.last() == digit_char(n % 10));
        assert(digits_value(d) == 10 * digits_value(decimal(n / 10)) + n % 10);
        assert(d[0] == decimal(n / 10)[0]);
        assert forall|i: int| 0 <= i < d.len() implies is_digit(#[trigger] d[i]) && !is_white_space(d[i]) by {
            if i < d.len() - 1 {
                assert(d[i] == decimal(n / 10)[i]);
            }
        }
    }
}

/// std's parser reads back the decimal notation of any `usize`.
pub proof fn lemma_usize_value_of_decimal(n: nat)
    requires
        n <= usize::MAX,
    ensures
        usize_value(decimal(n)) == Some(n),
{
    lemma_decimal_digits(n);
    assert(unsigned_digits(decimal(n)) == decimal(n));
}

} // verus!

verus! {

proof fn lemma_word_len_stops(s: Seq<char>)
    ensures
        forall|i: int| 0 <= i < word_len(s) ==> !is_white_space(#[trigger] s[i]),
    decreases s.len(),
{
    lemma_word_len_bound(s);
    if s.len() > 0 && !is_white_space(s[0]) {
        lemma_word_len_stops(s.drop_first());
        assert forall|i: int| 0 <= i < word_len(s) implies !is_white_space(#[trigger] s[i]) by {
            if i > 0 {
                assert(s[i] == s.drop_first()[i - 1]);
            }
        }
    }
}

proof fn lemma_word_len_prefix(a: Seq<char>, b: Seq<char>)
    requires
        word_len(a) < a.len(),
    ensures
        word_len(a + b) == word_len(a),
    decreases a.len(),
{
    assert((a + b)[0] == a[0]);
    if !is_white_space(a[0]) {
        assert((a + b).drop_first() =~= a.drop_first() + b);
        lemma_word_len_prefix(a.drop_first(), b);
    }
}

/// Text that ends in white space splits apart from what follows it.
pub proof fn lemma_tokens_append(a: Seq<char>, b: Seq<char>)
    requires
        a.len() == 0 || is_white_space(a.last()),
    ensures
        tokens(a + b) == tokens(a) + tokens(b),
    decreases a.len(),
{
    if a.len() == 0 {
        assert(a + b =~= b);
        assert(tokens(a) + tokens(b) =~= tokens(b));
    } else if is_white_space(a[0]) {
        assert((a + b)[0] == a[0]);
        assert((a + b).drop_first() =~= a.drop_first() + b);
        if a.len() > 1 {
            assert(a.drop_first().last() == a.last());
        }
        lemma_tokens_append(a.drop_first(), b);
    } else {
        lemma_word_len_bound(a);
        lemma_word_len_stops(a);
        let k = word_len(a) as int;
        assert(k < a.len());
        lemma_word_len_prefix(a, b);
        assert((a + b)[0] == a[0]);
        assert((a + b).take(k) =~= a.take(k));
        assert((a + b).skip(k) =~= a.skip(k) + b);
        assert(a.skip(k).last() == a.last());
        lemma_tokens_append(a.skip(k), b);
        assert(tokens(a + b) =~= seq![a.take(k)] + (tokens(a.skip(k)) + tokens(b)));
    }
}

/// A word followed by one white-space character is exactly one token.
pub proof fn lemma_tokens_field(w: Seq<char>, c: char)
    requires
        is_word(w),
        is_white_space(c),
    ensures
        tokens(w.push(c)) == seq![w],
{
    lemma_tokens_word_then(w, seq![c]);
    assert(w + seq![c] =~= w.push(c));
    lemma_tokens_skip_space(c, Seq::<char>::empty());
    assert(seq![c] + Seq::<char>::empty() =~= seq![c]);
    assert(seq![w] + Seq::<Seq<char>>::empty() =~= seq![w]);
}

} // verus!

verus! {

/// Splitting yields only words: none is empty and none holds white space.
pub proof fn lemma_tokens_are_words(s: Seq<char>)
    ensures
        forall|i: int| 0 <= i < tokens(s).len() ==> is_word(#[trigger] tokens(s)[i]),
    decreases s.len(),
{
    if s.len() == 0 {
        assert(tokens(s).len() == 0);
    } else if is_white_space(s[0]) {
        assert(tokens(s) == tokens(s.drop_first()));
        lemma_tokens_are_words(s.drop_first());
    } else {
        lemma_word_len_bound(s);
        lemma_word_len_stops(s);
        let k = word_len(s) as int;
        let w = s.take(k);
        assert forall|j: int| 0 <= j < w.len() implies !is_white_space(#[trigger] w[j]) by {
            assert(w[j] == s[j]);
        }
        lemma_tokens_are_words(s.skip(k));
        assert forall|i: int| 0 <= i < tokens(s).len() implies is_word(#[trigger] tokens(s)[i]) by {
            assert(tokens(s) == seq![w] + tokens(s.skip(k)));
            if i > 0 {
                assert(tokens(s)[i] == tokens(s.skip(k))[i - 1]);
            } else {
                assert(tokens(s)[i] == w);
            }
        }
    }
}

} // verus!
