use crate::term::Term as AbstractTerm;
use crate::unty_arith::parser::{
    is_space, lemma_word_end, lemma_word_start, lex, parsed, sentence, term_at, term_of,
    token_missing, word_end, word_start, words, words_from, Failure, Token,
};
use crate::unty_arith::term::Term;
use vstd::prelude::*;

verus! {

/// Where the tokens of `t` stand from `i` on, `t` is the term read there.
pub proof fn lemma_sentence_is_read(tokens: Seq<Token>, i: int, t: Term)
    requires
        0 <= i,
        i + sentence(t).len() <= tokens.len(),
        tokens.subrange(i, i + sentence(t).len()) == sentence(t),
    ensures
        sentence(t).len() >= 1,
        term_at(tokens, i) == Ok::<_, Failure<Seq<char>>>((t, i + sentence(t).len())),
    decreases t,
{
    let here = tokens.subrange(i, i + sentence(t).len());
    match t {
        Term::IfElse { condition, true_br, false_br } => {
            let c = sentence(*condition);
            let a = sentence(*true_br);
            let b = sentence(*false_br);
            let then_at = i + 1 + c.len();
            let else_at = then_at + 1 + a.len();
            assert(tokens.subrange(i + 1, then_at) == c) by {
                assert forall|k: int| 0 <= k < c.len() implies tokens[i + 1 + k] == c[k] by {
                    assert(tokens[i + 1 + k] == here[1 + k]);
                }
            }
            lemma_sentence_is_read(tokens, i + 1, *condition);
            assert(tokens[then_at] == here[then_at - i]);
            assert(tokens.subrange(then_at + 1, else_at) == a) by {
                assert forall|k: int| 0 <= k < a.len() implies tokens[then_at + 1 + k] == a[k] by {
                    assert(tokens[then_at + 1 + k] == here[2 + c.len() + k]);
                }
            }
            lemma_sentence_is_read(tokens, then_at + 1, *true_br);
            assert(tokens[else_at] == here[else_at - i]);
            assert(tokens.subrange(else_at + 1, else_at + 1 + b.len()) == b) by {
                assert forall|k: int| 0 <= k < b.len() implies tokens[else_at + 1 + k] == b[k] by {
                    assert(tokens[else_at + 1 + k] == here[3 + c.len() + a.len() + k]);
                }
            }
            lemma_sentence_is_read(tokens, else_at + 1, *false_br);
        },
        Term::Succ(operand) | Term::Pred(operand) | Term::IsZero(operand) => {
            let o = sentence(*operand);
            assert(tokens.subrange(i + 1, i + 1 + o.len()) == o) by {
                assert forall|k: int| 0 <= k < o.len() implies tokens[i + 1 + k] == o[k] by {
                    assert(tokens[i + 1 + k] == here[1 + k]);
                }
            }
            lemma_sentence_is_read(tokens, i + 1, *operand);
        },
        _ => {
            assert(tokens[i] == here[0]);
        },
    }
}

/// Where a term is read, its tokens stand, and nothing else does: the term
/// ends behind its start, within the tokens.
pub proof fn lemma_read_is_sentence(tokens: Seq<Token>, i: int)
    requires
        term_at(tokens, i) is Ok,
    ensures
        0 <= i < term_at(tokens, i)->Ok_0.1 <= tokens.len(),
        tokens.subrange(i, term_at(tokens, i)->Ok_0.1) == sentence(term_at(tokens, i)->Ok_0.0),
    decreases tokens.len() - i,
{
    let (t, end) = term_at(tokens, i)->Ok_0;
    match tokens[i] {
        Token::KwSucc | Token::KwPred | Token::KwIsZero => {
            lemma_read_is_sentence(tokens, i + 1);
        },
        Token::KwIf => {
            lemma_read_is_sentence(tokens, i + 1);
            let then_at = term_at(tokens, i + 1)->Ok_0.1;
            lemma_read_is_sentence(tokens, then_at + 1);
            let else_at = term_at(tokens, then_at + 1)->Ok_0.1;
            lemma_read_is_sentence(tokens, else_at + 1);
            assert(tokens.subrange(i, end) == seq![Token::KwIf] + tokens.subrange(i + 1, then_at)
                + seq![Token::KwThen] + tokens.subrange(then_at + 1, else_at) + seq![Token::KwElse]
                + tokens.subrange(else_at + 1, end));
        },
        _ => {},
    }
}

/// The tokens of a term are read back as that term, and the tokens that are
/// read as a term are the tokens of that term.
pub proof fn lemma_sentences_are_the_terms(tokens: Seq<Token>, t: Term)
    ensures
        term_of(tokens) == Ok::<_, Failure<Seq<char>>>(t) <==> tokens == sentence(t),
{
    if tokens == sentence(t) {
        assert(tokens.subrange(0, tokens.len() as int) == tokens);
        lemma_sentence_is_read(tokens, 0, t);
    }
    if term_of(tokens) == Ok::<_, Failure<Seq<char>>>(t) {
        lemma_read_is_sentence(tokens, 0);
        assert(tokens.subrange(0, tokens.len() as int) == tokens);
    }
}

/// The tokens written out, with one space between each two.
pub open spec fn spelled(tokens: Seq<Token>) -> Seq<char>
    decreases tokens.len(),
{
    if tokens.len() == 0 {
        Seq::empty()
    } else if tokens.len() == 1 {
        tokens[0].spelling()
    } else {
        tokens[0].spelling() + seq![' '] + spelled(tokens.drop_first())
    }
}

/// The spelling of each of the tokens.
pub open spec fn spellings(tokens: Seq<Token>) -> Seq<Seq<char>> {
    tokens.map_values(|token: Token| token.spelling())
}

/// A token is spelled with one character or more, none of them a space, and
/// is the only token with its spelling.
pub proof fn lemma_spelling(token: Token)
    ensures
        token.spelling().len() >= 1,
        forall|k: int| 0 <= k < token.spelling().len() ==> !is_space(#[trigger] token.spelling()[k]),
        Token::of_word(token.spelling()) == Some(token),
{
    reveal_strlit("true");
    reveal_strlit("false");
    reveal_strlit("0");
    reveal_strlit("if");
    reveal_strlit("then");
    reveal_strlit("else");
    reveal_strlit("succ");
    reveal_strlit("pred");
    reveal_strlit("iszero");
    assert("true"@[0] == 't' && "true"@[1] == 'r');
    assert("false"@[0] == 'f');
    assert("0"@[0] == '0');
    assert("if"@[0] == 'i' && "if"@.len() == 2);
    assert("then"@[0] == 't' && "then"@[1] == 'h');
    assert("else"@[0] == 'e');
    assert("succ"@[0] == 's');
    assert("pred"@[0] == 'p');
    assert("iszero"@[0] == 'i' && "iszero"@.len() == 6);
}

/// Tokens written one group behind another are the groups written with a
/// space between them.
pub proof fn lemma_spelled_in_groups(first: Seq<Token>, rest: Seq<Token>)
    requires
        first.len() >= 1,
        rest.len() >= 1,
    ensures
        spelled(first + rest) == spelled(first) + seq![' '] + spelled(rest),
    decreases first.len(),
{
    assert((first + rest).drop_first() == first.drop_first() + rest);
    if first.len() > 1 {
        lemma_spelled_in_groups(first.drop_first(), rest);
    }
}

/// The text of a term is its tokens written out.
pub proof fn lemma_text_is_spelled(t: Term)
    ensures
        sentence(t).len() >= 1,
        t.text() == spelled(sentence(t)),
    decreases t,
{
    reveal_strlit("if ");
    reveal_strlit(" then ");
    reveal_strlit(" else ");
    reveal_strlit("succ ");
    reveal_strlit("pred ");
    reveal_strlit("iszero ");
    reveal_strlit("if");
    reveal_strlit("then");
    reveal_strlit("else");
    reveal_strlit("succ");
    reveal_strlit("pred");
    reveal_strlit("iszero");
    let space = seq![' '];
    match t {
        Term::IfElse { condition, true_br, false_br } => {
            lemma_text_is_spelled(*condition);
            lemma_text_is_spelled(*true_br);
            lemma_text_is_spelled(*false_br);
            let c = sentence(*condition);
            let a = sentence(*true_br);
            let b = sentence(*false_br);
            let tail = seq![Token::KwElse] + b;
            let middle = seq![Token::KwThen] + a + tail;
            assert(sentence(t) == seq![Token::KwIf] + c + middle);
            lemma_spelled_in_groups(seq![Token::KwElse], b);
            lemma_spelled_in_groups(seq![Token::KwThen] + a, tail);
            lemma_spelled_in_groups(seq![Token::KwThen], a);
            lemma_spelled_in_groups(seq![Token::KwIf] + c, middle);
            lemma_spelled_in_groups(seq![Token::KwIf], c);
            assert(spelled(sentence(t)) == Token::KwIf.spelling() + space + condition.text()
                + space + (Token::KwThen.spelling() + space + true_br.text() + space + (
            Token::KwElse.spelling() + space + false_br.text())));
            assert(t.text() == "if "@ + condition.text() + " then "@ + true_br.text() + " else "@
                + false_br.text());
        },
        Term::Succ(operand) => {
            lemma_text_is_spelled(*operand);
            lemma_spelled_in_groups(seq![Token::KwSucc], sentence(*operand));
        },
        Term::Pred(operand) => {
            lemma_text_is_spelled(*operand);
            lemma_spelled_in_groups(seq![Token::KwPred], sentence(*operand));
        },
        Term::IsZero(operand) => {
            lemma_text_is_spelled(*operand);
            lemma_spelled_in_groups(seq![Token::KwIsZero], sentence(*operand));
        },
        _ => {},
    }
}

/// What stands before a place in a text does not change the words from
/// that place on.
pub proof fn lemma_words_behind_a_prefix(prefix: Seq<char>, s: Seq<char>, i: int)
    requires
        0 <= i <= s.len(),
    ensures
        word_start(prefix + s, prefix.len() + i) == prefix.len() + word_start(s, i),
        word_end(prefix + s, prefix.len() + i) == prefix.len() + word_end(s, i),
        words_from(prefix + s, prefix.len() + i) == words_from(s, i),
    decreases s.len() - i, 1nat,
{
    let whole = prefix + s;
    let n = prefix.len() as int;
    lemma_spaces_behind_a_prefix(prefix, s, i);
    lemma_letters_behind_a_prefix(prefix, s, i);
    lemma_word_start(s, i);
    let start = word_start(s, i);
    lemma_letters_behind_a_prefix(prefix, s, start);
    lemma_word_end(s, start);
    let end = word_end(s, start);
    if start < end {
        lemma_words_behind_a_prefix(prefix, s, end);
        assert(whole.subrange(n + start, n + end) == s.subrange(start, end));
    }
}

/// What stands before a place in a text does not change where the next word
/// starts.
pub proof fn lemma_spaces_behind_a_prefix(prefix: Seq<char>, s: Seq<char>, i: int)
    requires
        0 <= i <= s.len(),
    ensures
        word_start(prefix + s, prefix.len() + i) == prefix.len() + word_start(s, i),
    decreases s.len() - i, 0nat,
{
    if i < s.len() {
        if is_space(s[i]) {
            lemma_spaces_behind_a_prefix(prefix, s, i + 1);
        }
    }
}

/// What stands before a place in a text does not change where the word there
/// ends.
pub proof fn lemma_letters_behind_a_prefix(prefix: Seq<char>, s: Seq<char>, i: int)
    requires
        0 <= i <= s.len(),
    ensures
        word_end(prefix + s, prefix.len() + i) == prefix.len() + word_end(s, i),
    decreases s.len() - i, 0nat,
{
    if i < s.len() {
        if !is_space(s[i]) {
            lemma_letters_behind_a_prefix(prefix, s, i + 1);
        }
    }
}

/// A word without spaces ends where the text does or where a space follows it.
pub proof fn lemma_word_ends_at_its_end(s: Seq<char>, len: int, i: int)
    requires
        0 <= i <= len <= s.len(),
        forall|k: int| 0 <= k < len ==> !is_space(#[trigger] s[k]),
        len < s.len() ==> is_space(s[len]),
    ensures
        word_end(s, i) == len,
    decreases len - i,
{
    if i < len {
        lemma_word_ends_at_its_end(s, len, i + 1);
    }
}

/// A word and a space before a text add the word to the words of the text,
/// and a word alone is its only word.
pub proof fn lemma_words_behind_a_word(word: Seq<char>, s: Seq<char>)
    requires
        word.len() >= 1,
        forall|k: int| 0 <= k < word.len() ==> !is_space(#[trigger] word[k]),
    ensures
        words(word + seq![' '] + s) == seq![word] + words(s),
        words(word) == seq![word],
{
    let n = word.len() as int;
    lemma_word_ends_at_its_end(word, n, 0);
    assert(word.subrange(0, n) == word);
    lemma_word_start(word, n);

    let prefix = word + seq![' '];
    let whole = prefix + s;
    assert forall|k: int| 0 <= k < n implies !is_space(#[trigger] whole[k]) by {
        assert(whole[k] == word[k]);
    }
    lemma_word_ends_at_its_end(whole, n, 0);
    assert(whole.subrange(0, n) == word);
    lemma_word_start(whole, n);
    lemma_word_start(whole, n + 1);
    lemma_words_behind_a_prefix(prefix, s, 0);
}

/// The words of tokens written out are their spellings.
pub proof fn lemma_words_of_spelled(tokens: Seq<Token>)
    ensures
        words(spelled(tokens)) == spellings(tokens),
    decreases tokens.len(),
{
    if tokens.len() == 0 {
    } else {
        lemma_spelling(tokens[0]);
        lemma_words_behind_a_word(tokens[0].spelling(), spelled(tokens.drop_first()));
        if tokens.len() > 1 {
            lemma_words_of_spelled(tokens.drop_first());
            assert(spellings(tokens) == seq![tokens[0].spelling()] + spellings(
                tokens.drop_first(),
            ));
        }
    }
}

/// The spellings of tokens are read as those tokens.
pub proof fn lemma_spellings_are_read(tokens: Seq<Token>)
    ensures
        lex(spellings(tokens)) == Ok::<_, Failure<Seq<char>>>(tokens),
    decreases tokens.len(),
{
    if tokens.len() > 0 {
        lemma_spellings_are_read(tokens.drop_last());
        lemma_spelling(tokens.last());
        assert(spellings(tokens).drop_last() == spellings(tokens.drop_last()));
        assert(tokens.drop_last().push(tokens.last()) == tokens);
    } else {
        assert(tokens == Seq::<Token>::empty());
    }
}

/// The text of a term stands for that term.
pub proof fn lemma_text_is_parsed(t: Term)
    ensures
        parsed(t.text()) == Ok::<_, Failure<Seq<char>>>(t),
{
    lemma_text_is_spelled(t);
    lemma_words_of_spelled(sentence(t));
    lemma_spellings_are_read(sentence(t));
    lemma_sentences_are_the_terms(sentence(t), t);
}

/// A text stands for a term just when its words are the spellings of the
/// tokens of that term; so it has the words of the text of that term.
pub proof fn lemma_parsed_has_the_words(input: Seq<char>, t: Term)
    requires
        parsed(input) == Ok::<_, Failure<Seq<char>>>(t),
    ensures
        lex(words(input)) == Ok::<_, Failure<Seq<char>>>(sentence(t)),
{
    lemma_sentences_are_the_terms(lex(words(input))->Ok_0, t);
}

} // verus!
