//! Whitespace classification and tokenization of raw text.

use vstd::prelude::*;

verus! {

/// Whether `c` carries the Unicode `White_Space` property.
pub open spec fn is_whitespace(c: char) -> bool {
    let u = c as u32;
    ||| 0x0009 <= u <= 0x000D
    ||| u == 0x0020
    ||| u == 0x0085
    ||| u == 0x00A0
    ||| u == 0x1680
    ||| 0x2000 <= u <= 0x200A
    ||| u == 0x2028
    ||| u == 0x2029
    ||| u == 0x202F
    ||| u == 0x205F
    ||| u == 0x3000
}

/// Whether no character of `s` is whitespace.
pub open spec fn is_solid(s: Seq<char>) -> bool {
    forall|i: int| 0 <= i < s.len() ==> !is_whitespace(#[trigger] s[i])
}

/// Length of the longest whitespace-free prefix of `s`.
pub open spec fn word_len(s: Seq<char>) -> nat
    decreases s.len(),
{
    if s.len() == 0 || is_whitespace(s[0]) {
        0
    } else {
        1 + word_len(s.drop_first())
    }
}

/// The tokens of `s`: its maximal whitespace-free runs, from left to right.
pub open spec fn tokens_of(s: Seq<char>) -> Seq<Seq<char>>
    decreases s.len(),
    via tokens_of_decreases
{
    if s.len() == 0 {
        Seq::empty()
    } else if is_whitespace(s[0]) {
        tokens_of(s.drop_first())
    } else {
        let n = word_len(s) as int;
        seq![s.take(n)] + tokens_of(s.skip(n))
    }
}

#[via_fn]
proof fn tokens_of_decreases(s: Seq<char>) {
    lemma_word_len_bounds(s);
}

/// The whitespace-free prefix of `s` lies within `s`, and is non-empty
/// exactly when `s` starts with a non-whitespace character.
pub proof fn lemma_word_len_bounds(s: Seq<char>)
    ensures
        word_len(s) <= s.len(),
        s.len() > 0 && !is_whitespace(s[0]) ==> word_len(s) >= 1,
        is_solid(s.take(word_len(s) as int)),
        word_len(s) < s.len() ==> is_whitespace(s[word_len(s) as int]),
    decreases s.len(),
{
    if s.len() == 0 || is_whitespace(s[0]) {
    } else {
        let rest = s.drop_first();
        lemma_word_len_bounds(rest);
        let n = word_len(s) as int;
        assert forall|i: int| 0 <= i < n implies !is_whitespace(#[trigger] s.take(n)[i]) by {
            if i > 0 {
                assert(s.take(n)[i] == rest.take(n - 1)[i - 1]);
            }
        }
        if n < s.len() {
            assert(s[n] == rest[n - 1]);
        }
    }
}

/// Every token is a non-empty run of non-whitespace characters.
pub proof fn lemma_tokens_are_words(s: Seq<char>)
    ensures
        forall|i: int|
            0 <= i < tokens_of(s).len() ==> (#[trigger] tokens_of(s)[i]).len() > 0 && is_solid(
                tokens_of(s)[i],
            ),
    decreases s.len(),
{
    if s.len() == 0 {
        assert(tokens_of(s).len() == 0);
    } else if is_whitespace(s[0]) {
        lemma_tokens_are_words(s.drop_first());
        assert(tokens_of(s) == tokens_of(s.drop_first()));
    } else {
        let n = word_len(s) as int;
        let rest = tokens_of(s.skip(n));
        lemma_word_len_bounds(s);
        lemma_tokens_are_words(s.skip(n));
        assert(tokens_of(s) == seq![s.take(n)] + rest);
        assert forall|i: int| 0 <= i < tokens_of(s).len() implies (#[trigger] tokens_of(
            s,
        )[i]).len() > 0 && is_solid(tokens_of(s)[i]) by {
            if i > 0 {
                assert(tokens_of(s)[i] == rest[i - 1]);
            } else {
                assert(tokens_of(s)[0] == s.take(n));
            }
        }
    }
}

/// Decides whether `c` is whitespace.
pub fn char_is_whitespace(c: char) -> (b: bool)
    ensures
        b == is_whitespace(c),
{
    let u: u32 = c as u32;
    (0x0009 <= u && u <= 0x000D) || u == 0x0020 || u == 0x0085 || u == 0x00A0 || u == 0x1680 || (
    0x2000 <= u && u <= 0x200A) || u == 0x2028 || u == 0x2029 || u == 0x202F || u == 0x205F || u
        == 0x3000
}

/// `String::push` appends one character to the end of the string.
pub assume_specification[ String::push ](s: &mut String, c: char)
    ensures
        final(s)@ == old(s)@.push(c),
;

/// A whitespace-free run `word` followed by `rest` extends the first word of
/// `rest` by the whole of `word`.
pub proof fn lemma_word_len_concat(word: Seq<char>, rest: Seq<char>)
    requires
        is_solid(word),
    ensures
        word_len(word + rest) == word.len() + word_len(rest),
    decreases word.len(),
{
    if word.len() == 0 {
        assert(word + rest == rest);
    } else {
        assert((word + rest).drop_first() == word.drop_first() + rest);
        assert(!is_whitespace(word[0]));
        assert((word + rest)[0] == word[0]);
        assert forall|i: int| 0 <= i < word.drop_first().len() implies !is_whitespace(
            #[trigger] word.drop_first()[i],
        ) by {
            assert(word.drop_first()[i] == word[i + 1]);
        }
        lemma_word_len_concat(word.drop_first(), rest);
    }
}

/// A non-empty whitespace-free run that ends at whitespace, or at the end of
/// the text, is the first token.
pub proof fn lemma_tokens_of_word(word: Seq<char>, rest: Seq<char>)
    requires
        is_solid(word),
        word.len() > 0,
        rest.len() == 0 || is_whitespace(rest[0]),
    ensures
        tokens_of(word + rest) == seq![word] + tokens_of(rest),
{
    lemma_word_len_concat(word, rest);
    let s = word + rest;
    assert(word_len(rest) == 0);
    assert(s[0] == word[0]);
    assert(s.take(word.len() as int) == word);
    assert(s.skip(word.len() as int) == rest);
}

/// Splits `text` on runs of whitespace.
pub fn tokenize(text: &str) -> (tokens: Vec<String>)
    ensures
        tokens.deep_view() == tokens_of(text@),
{
    let mut tokens: Vec<String> = Vec::new();
    let mut current = String::new();
    proof {
        assert(tokens.deep_view() == Seq::<Seq<char>>::empty());
        assert(current@ + text@.skip(0) == text@);
    }
    for c in it: text.chars()
        invariant
            it.seq() == text@,
            is_solid(current@),
            tokens_of(text@) == tokens.deep_view() + tokens_of(
                current@ + text@.skip(it.index() as int),
            ),
    {
        let ghost i = it.index() as int;
        let ghost done = tokens.deep_view();
        let ghost word = current@;
        let ghost rest = text@.skip(i + 1);
        assert(c == text@[i]);
        assert(text@.skip(i) == seq![c] + rest);
        if char_is_whitespace(c) {
            if !current.as_str().is_empty() {
                proof {
                    lemma_tokens_of_word(word, seq![c] + rest);
                    assert((seq![c] + rest).drop_first() == rest);
                }
                tokens.push(current);
                current = String::new();
                proof {
                    assert(tokens.deep_view() == done + seq![word]);
                    assert(current@ + rest == rest);
                }
            } else {
                proof {
                    assert(word + (seq![c] + rest) == seq![c] + rest);
                    assert((seq![c] + rest).drop_first() == rest);
                    assert(current@ + rest == rest);
                }
            }
        } else {
            current.push(c);
            proof {
                assert(current@ + rest == word + (seq![c] + rest));
            }
        }
    }
    proof {
        assert(text@.skip(text@.len() as int) == Seq::<char>::empty());
        assert(current@ + Seq::<char>::empty() == current@);
    }
    if !current.as_str().is_empty() {
        proof {
            lemma_tokens_of_word(current@, Seq::empty());
            assert(tokens.deep_view().push(current@) == tokens.deep_view() + seq![current@]);
        }
        let ghost done = tokens.deep_view();
        let ghost word = current@;
        tokens.push(current);
        proof {
            assert(tokens.deep_view() == done.push(word));
        }
    }
    tokens
}

} // verus!
